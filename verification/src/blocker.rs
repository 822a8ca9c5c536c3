//! Whether a pane waits for a person.

use crate::text::copy_text;
use crate::textmap;
use crate::textmap::TextMap;
use vstd::prelude::*;

verus! {

/// What stands between a worker and its work.
#[derive(Clone, Copy, PartialEq, Eq, Debug, Structural)]
pub enum Blocker {
    /// The pane was read, and nothing is visible.
    Nothing,
    /// A permission or plan prompt.
    Prompt,
    /// The pane is in a tmux mode: somebody is reading it.
    Occluded,
    /// The pane could not be read.
    Unknown,
}

/// The screen of a pane, as far as the search for a prompt goes.
pub enum Capture {
    /// It could not be captured.
    Failed,
    /// It shows no prompt.
    Clear,
    /// It shows a prompt, with these lines.
    Prompt(Vec<String>),
}

/// What was asked of one pane.
pub struct Probe {
    pub pane: String,
    /// Whether the pane is in a mode; `None` when tmux did not say.
    pub in_mode: Option<bool>,
    /// The screen. It is not looked at unless the pane is known to be in no mode: in a mode it
    /// shows what a reader scrolled to.
    pub capture: Capture,
}

/// What a probe tells.
pub open spec fn verdict(in_mode: Option<bool>, capture: Capture) -> Blocker {
    match in_mode {
        Some(true) => Blocker::Occluded,
        Some(false) => match capture {
            Capture::Prompt(_) => Blocker::Prompt,
            Capture::Clear => Blocker::Nothing,
            Capture::Failed => Blocker::Unknown,
        },
        None => Blocker::Unknown,
    }
}

/// The prompt that a probe found.
pub open spec fn prompt_lines(in_mode: Option<bool>, capture: Capture) -> Option<Vec<String>> {
    match (in_mode, capture) {
        (Some(false), Capture::Prompt(lines)) => Some(lines),
        _ => None,
    }
}

/// What a probe tells, and the prompt that it found. What cannot be read is unknown, never
/// free of blockers.
pub fn blocker_probe(in_mode: Option<bool>, capture: Capture) -> (r: (Blocker, Option<Vec<String>>))
    ensures
        r.0 == verdict(in_mode, capture),
        r.1 == prompt_lines(in_mode, capture),
        r.1 is Some <==> r.0 == Blocker::Prompt,
{
    match in_mode {
        Some(true) => (Blocker::Occluded, None),
        Some(false) => match capture {
            Capture::Prompt(lines) => (Blocker::Prompt, Some(lines)),
            Capture::Clear => (Blocker::Nothing, None),
            Capture::Failed => (Blocker::Unknown, None),
        },
        None => (Blocker::Unknown, None),
    }
}

/// The blockers of one round.
pub struct BlockerIndex {
    /// By pane; `None` when nothing could be asked.
    pub panes: Option<TextMap<Blocker>>,
}

impl View for BlockerIndex {
    type V = Option<Map<Seq<char>, Blocker>>;

    open spec fn view(&self) -> Option<Map<Seq<char>, Blocker>> {
        match self.panes {
            Some(m) => Some(m@),
            None => None,
        }
    }
}

/// The blocker of a pane; unknown for one that was not asked.
pub open spec fn blocker_at(b: Option<Map<Seq<char>, Blocker>>, pane: Seq<char>) -> Blocker {
    match b {
        Some(m) => if m.dom().contains(pane) {
            m[pane]
        } else {
            Blocker::Unknown
        },
        None => Blocker::Unknown,
    }
}

/// The verdicts of the probes, by pane. A later probe of a pane replaces an earlier one; one
/// without a pane is left out.
pub open spec fn verdicts(probes: Seq<Probe>) -> Map<Seq<char>, Blocker>
    decreases probes.len(),
{
    if probes.len() == 0 {
        Map::empty()
    } else {
        let before = verdicts(probes.drop_last());
        let p = probes.last();
        if p.pane@.len() == 0 {
            before
        } else {
            before.insert(p.pane@, verdict(p.in_mode, p.capture))
        }
    }
}

/// The prompts that the probes found, by pane.
pub open spec fn prompts(probes: Seq<Probe>) -> Map<Seq<char>, Vec<String>>
    decreases probes.len(),
{
    if probes.len() == 0 {
        Map::empty()
    } else {
        let before = prompts(probes.drop_last());
        let p = probes.last();
        match prompt_lines(p.in_mode, p.capture) {
            Some(lines) => if p.pane@.len() == 0 {
                before
            } else {
                before.insert(p.pane@, lines)
            },
            None => before,
        }
    }
}

impl BlockerIndex {
    /// One round: the verdict of every probed pane, and the prompts that were seen.
    pub fn query_with_snippets(probes: Vec<Probe>) -> (r: (Self, TextMap<Vec<String>>))
        ensures
            r.0@ == Some(verdicts(probes@)),
            r.1@ == prompts(probes@),
    {
        let ghost all = probes@;
        let mut map: TextMap<Blocker> = TextMap::new();
        let mut snips: TextMap<Vec<String>> = TextMap::new();
        proof {
            assert(all.take(0) =~= Seq::<Probe>::empty());
        }
        for p in it: probes
            invariant
                it.seq() == all,
                map@ == verdicts(all.take(it.index() as int)),
                snips@ == prompts(all.take(it.index() as int)),
        {
            let ghost i = it.index() as int;
            proof {
                assert(all.take(i + 1).drop_last() =~= all.take(i));
                assert(all.take(i + 1).last() == p);
            }
            if !p.pane.as_str().is_empty() {
                let (b, snip) = blocker_probe(p.in_mode, p.capture);
                if let Some(lines) = snip {
                    snips.insert(copy_text(p.pane.as_str()), lines);
                }
                map.insert(p.pane, b);
            }
        }
        proof {
            assert(all.take(all.len() as int) =~= all);
        }
        (BlockerIndex { panes: Some(map) }, snips)
    }

    /// The round that knows nothing.
    pub fn unknown() -> (r: Self)
        ensures
            r@ is None,
    {
        BlockerIndex { panes: None }
    }

    /// The blocker of a pane.
    pub fn get(&self, pane: &str) -> (r: Blocker)
        ensures
            r == blocker_at(self@, pane@),
    {
        match &self.panes {
            None => Blocker::Unknown,
            Some(m) => match m.get(pane) {
                Some(b) => *b,
                None => Blocker::Unknown,
            },
        }
    }
}

/// How many rounds in a row a prompt has to be seen before it is shown.
pub const BLOCKER_DEBOUNCE_ROUNDS: u32 = 2;

/// How often in a row each pane has shown a prompt.
///
/// A prompt is recognised by what is written on the screen, and a worker may happen to write
/// just that. So it counts from the second round on. The other verdicts are not matched
/// against text and pass at once.
pub struct BlockerDebounce {
    streak: TextMap<u32>,
}

/// The rounds after one more. They stop at the largest number.
pub open spec fn one_more(n: u32) -> u32 {
    if n == u32::MAX {
        n
    } else {
        (n + 1) as u32
    }
}

/// The rounds in a row so far.
pub open spec fn rounds(streak: Map<Seq<char>, u32>, pane: Seq<char>) -> u32 {
    if streak.dom().contains(pane) {
        streak[pane]
    } else {
        0
    }
}

/// The streaks after a round: one more for every pane that shows a prompt, none for the others.
pub open spec fn next_streak(streak: Map<Seq<char>, u32>, raw: Option<Map<Seq<char>, Blocker>>) -> Map<
    Seq<char>,
    u32,
> {
    match raw {
        Some(m) => Map::new(
            |p: Seq<char>| m.dom().contains(p) && m[p] == Blocker::Prompt,
            |p: Seq<char>| one_more(rounds(streak, p)),
        ),
        None => Map::empty(),
    }
}

/// What is shown of a verdict after so many rounds.
pub open spec fn settled(streak: Map<Seq<char>, u32>, p: Seq<char>, b: Blocker) -> Blocker {
    if b == Blocker::Prompt && one_more(rounds(streak, p)) < BLOCKER_DEBOUNCE_ROUNDS {
        Blocker::Nothing
    } else {
        b
    }
}

/// What is shown of a round.
pub open spec fn shown(streak: Map<Seq<char>, u32>, raw: Option<Map<Seq<char>, Blocker>>) -> Option<
    Map<Seq<char>, Blocker>,
> {
    match raw {
        Some(m) => Some(
            Map::new(
                |p: Seq<char>| m.dom().contains(p),
                |p: Seq<char>| settled(streak, p, m[p]),
            ),
        ),
        None => None,
    }
}

impl View for BlockerDebounce {
    type V = Map<Seq<char>, u32>;

    closed spec fn view(&self) -> Map<Seq<char>, u32> {
        self.streak@
    }
}

impl Default for BlockerDebounce {
    fn default() -> (r: Self)
        ensures
            r@ == Map::<Seq<char>, u32>::empty(),
    {
        BlockerDebounce::new()
    }
}

impl BlockerDebounce {
    /// No pane has shown anything.
    pub fn new() -> (r: Self)
        ensures
            r@ == Map::<Seq<char>, u32>::empty(),
    {
        BlockerDebounce { streak: TextMap::new() }
    }

    /// Forgets every streak: rounds with a gap between them are not in a row.
    pub fn reset(&mut self)
        ensures
            final(self)@ == Map::<Seq<char>, u32>::empty(),
    {
        self.streak = TextMap::new();
    }

    /// Takes a round in and gives what is shown of it. A prompt passes from the second round
    /// in a row on and counts as no blocker before; everything else passes at once and ends
    /// the pane's streak.
    pub fn apply(&mut self, raw: BlockerIndex) -> (r: BlockerIndex)
        ensures
            final(self)@ == next_streak(old(self)@, raw@),
            r@ == shown(old(self)@, raw@),
    {
        let ghost streak = self.streak@;
        let panes = match raw.panes {
            Some(panes) => panes,
            None => {
                self.streak = TextMap::new();
                return BlockerIndex { panes: None };
            },
        };
        let ghost m = panes@;
        let entries = panes.into_entries();
        let ghost all = entries@;
        let mut next: TextMap<u32> = TextMap::new();
        let mut out: TextMap<Blocker> = TextMap::new();
        let mut i: usize = 0;
        proof {
            assert(all.take(0) =~= Seq::<(String, Blocker)>::empty());
            assert(next@ =~= next_streak(streak, Some(textmap::entry_map(all.take(0)))));
            assert(out@ =~= shown(streak, Some(textmap::entry_map(all.take(0))))->0);
        }
        while i < entries.len()
            invariant
                i <= entries@.len(),
                all == entries@,
                self.streak@ == streak,
                next@ == next_streak(streak, Some(textmap::entry_map(all.take(i as int)))),
                out@ == shown(streak, Some(textmap::entry_map(all.take(i as int))))->0,
                textmap::distinct_keys(all),
            decreases entries@.len() - i,
        {
            let ghost m0 = textmap::entry_map(all.take(i as int));
            let ghost m1 = textmap::entry_map(all.take(i + 1));
            let ghost next0 = next@;
            let ghost out0 = out@;
            let pane = entries[i].0.as_str();
            let b = entries[i].1;
            proof {
                assert(all.take(i + 1).drop_last() =~= all.take(i as int));
                assert(all.take(i + 1).last() == all[i as int]);
                assert(m1 == m0.insert(pane@, b));
                textmap::lemma_entry_dom(all.take(i as int), pane@);
                assert(!m0.dom().contains(pane@)) by {
                    if exists|j: int| 0 <= j < i && #[trigger] all.take(i as int)[j].0@ == pane@ {
                        let j = choose|j: int| 0 <= j < i && #[trigger] all.take(i as int)[j].0@ == pane@;
                        assert(all[j].0@ != all[i as int].0@);
                    }
                }
            }
            let mut show = b;
            if b == Blocker::Prompt {
                let n: u32 = match self.streak.get(pane) {
                    Some(n) => *n,
                    None => 0,
                };
                let n1: u32 = if n == u32::MAX {
                    n
                } else {
                    n + 1
                };
                next.insert(copy_text(pane), n1);
                if n1 < BLOCKER_DEBOUNCE_ROUNDS {
                    show = Blocker::Nothing;
                }
            }
            out.insert(copy_text(pane), show);
            proof {
                assert(next@ =~= next_streak(streak, Some(m1)));
                assert(out@ =~= shown(streak, Some(m1))->0);
            }
            i += 1;
        }
        proof {
            assert(all.take(all.len() as int) =~= all);
        }
        self.streak = next;
        BlockerIndex { panes: Some(out) }
    }
}

/// A prompt is not shown in the first round in which it is seen.
pub proof fn one_round_raises_nothing(
    streak: Map<Seq<char>, u32>,
    raw: Option<Map<Seq<char>, Blocker>>,
    pane: Seq<char>,
)
    requires
        rounds(streak, pane) == 0,
        blocker_at(raw, pane) == Blocker::Prompt,
    ensures
        blocker_at(shown(streak, raw), pane) == Blocker::Nothing,
{
}

/// A prompt that is seen in two rounds in a row is shown in the second, whatever the other
/// panes did.
pub proof fn two_rounds_in_a_row_raise(
    streak: Map<Seq<char>, u32>,
    first: Option<Map<Seq<char>, Blocker>>,
    second: Option<Map<Seq<char>, Blocker>>,
    pane: Seq<char>,
)
    requires
        blocker_at(first, pane) == Blocker::Prompt,
        blocker_at(second, pane) == Blocker::Prompt,
    ensures
        blocker_at(shown(next_streak(streak, first), second), pane) == Blocker::Prompt,
{
    assert(rounds(next_streak(streak, first), pane) >= 1);
}

/// A prompt comes down in the first round that does not see it, and has to be seen twice again
/// after that.
pub proof fn one_clear_round_lowers(
    streak: Map<Seq<char>, u32>,
    raw: Option<Map<Seq<char>, Blocker>>,
    later: Option<Map<Seq<char>, Blocker>>,
    pane: Seq<char>,
)
    requires
        blocker_at(raw, pane) != Blocker::Prompt,
    ensures
        blocker_at(shown(streak, raw), pane) == blocker_at(raw, pane),
        rounds(next_streak(streak, raw), pane) == 0,
        blocker_at(later, pane) == Blocker::Prompt ==> blocker_at(
            shown(next_streak(streak, raw), later),
            pane,
        ) == Blocker::Nothing,
{
}

/// The streaks hold no pane that the last round did not probe.
pub proof fn streaks_stay_within_the_round(
    streak: Map<Seq<char>, u32>,
    raw: Option<Map<Seq<char>, Blocker>>,
    pane: Seq<char>,
)
    requires
        next_streak(streak, raw).dom().contains(pane),
    ensures
        raw is Some,
        raw->0.dom().contains(pane),
        raw->0[pane] == Blocker::Prompt,
{
}

/// The prompts that are on the screen, by pane. They live only as long as they are shown.
pub struct Snippets {
    panes: TextMap<Vec<String>>,
}

impl View for Snippets {
    type V = Map<Seq<char>, Vec<String>>;

    closed spec fn view(&self) -> Map<Seq<char>, Vec<String>> {
        self.panes@
    }
}

/// The prompts of the panes that are shown as prompting.
pub open spec fn kept(
    all: Map<Seq<char>, Vec<String>>,
    shown: Option<Map<Seq<char>, Blocker>>,
) -> Map<Seq<char>, Vec<String>> {
    all.restrict(Set::new(|p: Seq<char>| blocker_at(shown, p) == Blocker::Prompt))
}

impl Default for Snippets {
    fn default() -> (r: Self)
        ensures
            r@ == Map::<Seq<char>, Vec<String>>::empty(),
    {
        Snippets { panes: TextMap::new() }
    }
}

impl Snippets {
    /// Takes the prompts of a round in. `shown` is what is shown of the round: a prompt that
    /// is not shown yet has no lines to go with it, and one that came down keeps none.
    pub fn apply(&mut self, fresh: TextMap<Vec<String>>, shown: &BlockerIndex)
        ensures
            final(self)@ == kept(old(self)@.union_prefer_right(fresh@), shown@),
    {
        let ghost before = self.panes@;
        let ghost news = fresh@;
        let mut held: TextMap<Vec<String>> = TextMap::new();
        std::mem::swap(&mut held, &mut self.panes);
        let old_entries = held.into_entries();
        let ghost olds = old_entries@;
        let mut out: TextMap<Vec<String>> = TextMap::new();
        proof {
            assert(olds.take(0) =~= Seq::<(String, Vec<String>)>::empty());
            assert(out@ =~= kept(textmap::entry_map(olds.take(0)), shown@));
        }
        for e in it: old_entries
            invariant
                it.seq() == olds,
                out@ == kept(textmap::entry_map(olds.take(it.index() as int)), shown@),
        {
            let ghost i = it.index() as int;
            proof {
                assert(olds.take(i + 1).drop_last() =~= olds.take(i));
                assert(olds.take(i + 1).last() == e);
            }
            let ghost out0 = out@;
            let (k, v) = e;
            let ghost kk = k@;
            let ghost vv = v;
            if shown.get(k.as_str()) == Blocker::Prompt {
                out.insert(k, v);
            }
            proof {
                assert(out@ =~= kept(textmap::entry_map(olds.take(i)).insert(kk, vv), shown@));
            }
        }
        proof {
            assert(olds.take(olds.len() as int) =~= olds);
        }
        let new_entries = fresh.into_entries();
        let ghost adds = new_entries@;
        proof {
            assert(adds.take(0) =~= Seq::<(String, Vec<String>)>::empty());
            assert(out@ =~= kept(
                before.union_prefer_right(textmap::entry_map(adds.take(0))),
                shown@,
            ));
        }
        for e in it: new_entries
            invariant
                it.seq() == adds,
                out@ == kept(
                    before.union_prefer_right(textmap::entry_map(adds.take(it.index() as int))),
                    shown@,
                ),
        {
            let ghost i = it.index() as int;
            proof {
                assert(adds.take(i + 1).drop_last() =~= adds.take(i));
                assert(adds.take(i + 1).last() == e);
            }
            let (k, v) = e;
            let ghost kk = k@;
            let ghost vv = v;
            if shown.get(k.as_str()) == Blocker::Prompt {
                out.insert(k, v);
            }
            proof {
                assert(out@ =~= kept(
                    before.union_prefer_right(textmap::entry_map(adds.take(i)).insert(kk, vv)),
                    shown@,
                ));
            }
        }
        proof {
            assert(adds.take(adds.len() as int) =~= adds);
        }
        self.panes = out;
    }

    /// The prompt of a pane.
    pub fn get(&self, pane: &str) -> (r: Option<&[String]>)
        ensures
            match r {
                Some(v) => self@.dom().contains(pane@) && v@ == self@[pane@]@,
                None => !self@.dom().contains(pane@),
            },
    {
        match self.panes.get(pane) {
            Some(v) => Some(v.as_slice()),
            None => None,
        }
    }

    /// How many prompts there are.
    pub fn len(&self) -> (n: usize)
        ensures
            self@.dom().finite(),
            n == self@.dom().len(),
    {
        self.panes.len()
    }
}

/// A pane has prompt lines only while it is shown as prompting.
pub proof fn snippets_only_where_a_prompt_is_shown(
    before: Map<Seq<char>, Vec<String>>,
    fresh: Map<Seq<char>, Vec<String>>,
    shown: Option<Map<Seq<char>, Blocker>>,
    pane: Seq<char>,
)
    ensures
        kept(before.union_prefer_right(fresh), shown).dom().contains(pane) ==> blocker_at(shown, pane)
            == Blocker::Prompt,
        shown is None ==> kept(before.union_prefer_right(fresh), shown) == Map::<
            Seq<char>,
            Vec<String>,
        >::empty(),
{
    if shown is None {
        assert(kept(before.union_prefer_right(fresh), shown) =~= Map::<Seq<char>, Vec<String>>::empty());
    }
}

} // verus!
