//! The rows that the dashboard reads: workers, tasks and their identities.

use crate::stamp;
use crate::stamp::parse_iso_to_epoch;
use crate::text;
use crate::text::{from_chars, last_index, same, stands_in, to_chars};
use vstd::prelude::*;

verus! {

/// One worker of the registry.
#[derive(Clone, Debug, PartialEq, Eq)]
pub struct AgentSnapshot {
    pub name: String,
    pub pane: String,
    pub runtime: String,
    /// The window in which the worker was spawned.
    pub owner: String,
    pub ready: String,
    /// The identity of this generation of the worker; empty for one registered by hand.
    pub spawn_tag: String,
    pub registered_at: String,
    pub spawned_at: String,
    pub spawned: bool,
    /// The registry file could not be read.
    pub corrupt: bool,
    /// The generation key of the lineage's root.
    pub lineage_root: Option<String>,
    /// The generation key of the worker that spawned this one.
    pub parent_agent: Option<String>,
}

/// One task.
#[derive(Clone, Debug, PartialEq, Eq)]
pub struct InFlight {
    pub id: String,
    pub created_at: String,
    pub from: String,
    pub to: String,
    pub status: String,
}

/// Whether a character may stand in a name.
pub open spec fn name_char(c: char) -> bool {
    'a' <= c <= 'z' || 'A' <= c <= 'Z' || '0' <= c <= '9' || c == '_' || c == '-'
}

/// The grammar of names: `[A-Za-z0-9_-]+`.
pub open spec fn valid_name(s: Seq<char>) -> bool {
    s.len() > 0 && forall|i: int| 0 <= i < s.len() ==> name_char(#[trigger] s[i])
}

/// Whether the characters `v[from..to]` are a name.
fn is_name_at(v: &Vec<char>, from: usize, to: usize) -> (r: bool)
    requires
        from <= to <= v@.len(),
    ensures
        r == valid_name(v@.subrange(from as int, to as int)),
{
    let mut i: usize = from;
    while i < to
        invariant
            from <= i <= to <= v@.len(),
            forall|j: int| from <= j < i ==> name_char(#[trigger] v@[j]),
        decreases to - i,
    {
        let c = v[i];
        if !(('a' <= c && c <= 'z') || ('A' <= c && c <= 'Z') || ('0' <= c && c <= '9') || c == '_'
            || c == '-') {
            proof {
                assert(v@.subrange(from as int, to as int)[i - from] == v@[i as int]);
            }
            return false;
        }
        i += 1;
    }
    from < to
}

/// Whether a text is a name.
pub fn is_valid_name(s: &str) -> (r: bool)
    ensures
        r == valid_name(s@),
{
    let v = to_chars(s);
    proof {
        assert(v@.subrange(0, v@.len() as int) =~= s@);
    }
    is_name_at(&v, 0, v.len())
}

/// What every generation key starts with.
pub open spec fn key_prefix() -> Seq<char> {
    "AGENT_BRIDGE_SPAWN_TAG=ab-spawn-"@
}

/// Whether all characters are decimal digits.
pub open spec fn all_digits(s: Seq<char>) -> bool {
    s.len() > 0 && forall|i: int| 0 <= i < s.len() ==> stamp::decimal(#[trigger] s[i])
}

/// Whether a character is a lowercase hexadecimal digit.
pub open spec fn hex_char(c: char) -> bool {
    '0' <= c <= '9' || 'a' <= c <= 'f'
}

/// Whether a text is twelve lowercase hexadecimal digits.
pub open spec fn hex12(s: Seq<char>) -> bool {
    s.len() == 12 && forall|i: int| 0 <= i < 12 ==> hex_char(#[trigger] s[i])
}

/// The part of a generation key after its fixed prefix: `<name>-<pid>-<12 hex digits>`.
pub open spec fn key_tail(s: Seq<char>) -> bool {
    let h = text::last_at(s, '-');
    let p = text::last_at(s.take(h), '-');
    &&& h >= 0
    &&& p >= 0
    &&& valid_name(s.take(p))
    &&& all_digits(s.subrange(p + 1, h))
    &&& hex12(s.skip(h + 1))
}

/// The grammar of generation keys.
pub open spec fn generation_key(s: Seq<char>) -> bool {
    text::starts(s, key_prefix()) && key_tail(s.skip(key_prefix().len() as int))
}

/// Whether a text is a generation key.
pub fn is_generation_key(s: &str) -> (r: bool)
    ensures
        r == generation_key(s@),
{
    let all = to_chars(s);
    let prefix = to_chars("AGENT_BRIDGE_SPAWN_TAG=ab-spawn-");
    if !stands_in(&all, &prefix, 0) {
        return false;
    }
    let v = skip_chars(&all, prefix.len());
    let h: usize = match last_index(&v, v.len(), '-') {
        Some(h) => h,
        None => {
            proof {
                assert(v@.take(v@.len() as int) =~= v@);
            }
            return false;
        },
    };
    proof {
        assert(v@.take(v@.len() as int) =~= v@);
    }
    let p: usize = match last_index(&v, h, '-') {
        Some(p) => p,
        None => {
            return false;
        },
    };
    proof {
        assert(v@.take(p as int) =~= v@.subrange(0, p as int));
        assert(v@.skip(h + 1) =~= v@.subrange(h + 1, v@.len() as int));
    }
    if !is_name_at(&v, 0, p) {
        return false;
    }
    is_digits_at(&v, p + 1, h) && is_hex12_at(&v, h + 1)
}

/// Whether the characters `v[from..to]` are decimal digits, at least one.
fn is_digits_at(v: &Vec<char>, from: usize, to: usize) -> (r: bool)
    requires
        from <= to <= v@.len(),
    ensures
        r == all_digits(v@.subrange(from as int, to as int)),
{
    let mut i: usize = from;
    while i < to
        invariant
            from <= i <= to <= v@.len(),
            forall|j: int| from <= j < i ==> stamp::decimal(#[trigger] v@[j]),
        decreases to - i,
    {
        if !('0' <= v[i] && v[i] <= '9') {
            proof {
                assert(v@.subrange(from as int, to as int)[i - from] == v@[i as int]);
            }
            return false;
        }
        i += 1;
    }
    from < to
}

/// Whether the characters `v[from..]` are twelve lowercase hexadecimal digits.
fn is_hex12_at(v: &Vec<char>, from: usize) -> (r: bool)
    requires
        from <= v@.len(),
    ensures
        r == hex12(v@.skip(from as int)),
{
    if v.len() - from != 12 {
        return false;
    }
    let mut k: usize = from;
    while k < v.len()
        invariant
            from <= k <= v@.len(),
            v@.len() == from + 12,
            forall|j: int| from <= j < k ==> hex_char(#[trigger] v@[j]),
        decreases v@.len() - k,
    {
        let c = v[k];
        if !(('0' <= c && c <= '9') || ('a' <= c && c <= 'f')) {
            proof {
                assert(v@.skip(from as int)[k - from] == v@[k as int]);
            }
            return false;
        }
        k += 1;
    }
    true
}

/// The characters after the first `n`.
fn skip_chars(v: &Vec<char>, n: usize) -> (r: Vec<char>)
    requires
        n <= v@.len(),
    ensures
        r@ == v@.skip(n as int),
{
    let mut r: Vec<char> = Vec::new();
    let mut i: usize = n;
    while i < v.len()
        invariant
            n <= i <= v@.len(),
            r@ == v@.subrange(n as int, i as int),
        decreases v@.len() - i,
    {
        r.push(v[i]);
        proof {
            assert(v@.subrange(n as int, i + 1) =~= v@.subrange(n as int, i as int).push(
                v@[i as int],
            ));
        }
        i += 1;
    }
    proof {
        assert(v@.subrange(n as int, v@.len() as int) =~= v@.skip(n as int));
    }
    r
}

/// The name and the short code that a generation key shows to a reader.
pub open spec fn display_parts(key: Seq<char>) -> Option<(Seq<char>, Seq<char>)> {
    if !text::starts(key, key_prefix()) {
        None
    } else {
        let rest = key.skip(key_prefix().len() as int);
        let h = text::last_at(rest, '-');
        let p = text::last_at(rest.take(h), '-');
        match byte_prefix(rest.skip(h + 1), 4) {
            Some(code) => if h >= 0 && p >= 0 {
                Some((rest.take(p), code))
            } else {
                None
            },
            None => None,
        }
    }
}

/// The number of bytes of a character in UTF-8.
pub open spec fn width(c: char) -> nat {
    if c <= '\u{7f}' {
        1
    } else if c <= '\u{7ff}' {
        2
    } else if c <= '\u{ffff}' {
        3
    } else {
        4
    }
}

/// The characters of the first `n` bytes of a text, where a character ends there.
pub open spec fn byte_prefix(s: Seq<char>, n: nat) -> Option<Seq<char>>
    decreases s.len(),
{
    if n == 0 {
        Some(Seq::empty())
    } else if s.len() == 0 || width(s[0]) > n {
        None
    } else {
        match byte_prefix(s.skip(1), (n - width(s[0])) as nat) {
            Some(p) => Some(seq![s[0]] + p),
            None => None,
        }
    }
}

/// The end of the first four bytes of `v[from..]`, where a character ends there.
fn code_end(v: &Vec<char>, from: usize) -> (r: Option<usize>)
    requires
        from <= v@.len(),
    ensures
        match r {
            Some(e) => from <= e <= v@.len() && byte_prefix(v@.skip(from as int), 4) == Some(
                v@.subrange(from as int, e as int),
            ),
            None => byte_prefix(v@.skip(from as int), 4) is None,
        },
{
    let mut i: usize = from;
    let mut left: usize = 4;
    while left > 0
        invariant
            from <= i <= v@.len(),
            left <= 4,
            byte_prefix(v@.skip(from as int), 4) == (match byte_prefix(
                v@.skip(i as int),
                left as nat,
            ) {
                Some(p) => Some(v@.subrange(from as int, i as int) + p),
                None => None,
            }),
        decreases left,
    {
        if i >= v.len() {
            return None;
        }
        let c = v[i];
        let w: usize = if c <= '\u{7f}' {
            1
        } else if c <= '\u{7ff}' {
            2
        } else if c <= '\u{ffff}' {
            3
        } else {
            4
        };
        if w > left {
            return None;
        }
        proof {
            let rest = v@.skip(i as int);
            assert(rest.skip(1) =~= v@.skip(i + 1));
            if let Some(p) = byte_prefix(v@.skip(i + 1), (left - w) as nat) {
                assert(v@.subrange(from as int, i as int) + (seq![c] + p) =~= v@.subrange(
                    from as int,
                    i + 1,
                ) + p);
            }
        }
        left -= w;
        i += 1;
    }
    proof {
        assert(v@.subrange(from as int, i as int) + Seq::<char>::empty() =~= v@.subrange(
            from as int,
            i as int,
        ));
    }
    Some(i)
}

/// The texts of an optional pair.
pub open spec fn pair_view(p: Option<(String, String)>) -> Option<(Seq<char>, Seq<char>)> {
    match p {
        Some((a, b)) => Some((a@, b@)),
        None => None,
    }
}

/// The name and the short code of a generation key, for display only: the part before the
/// last two dashes, and the first four characters of the hexadecimal part.
pub fn tag_display_parts(key: &str) -> (r: Option<(String, String)>)
    ensures
        pair_view(r) == display_parts(key@),
{
    let all = to_chars(key);
    let prefix = to_chars("AGENT_BRIDGE_SPAWN_TAG=ab-spawn-");
    if !stands_in(&all, &prefix, 0) {
        return None;
    }
    let v = skip_chars(&all, prefix.len());
    proof {
        assert(v@.take(v@.len() as int) =~= v@);
    }
    let h: usize = match last_index(&v, v.len(), '-') {
        Some(h) => h,
        None => {
            return None;
        },
    };
    let p: usize = match last_index(&v, h, '-') {
        Some(p) => p,
        None => {
            return None;
        },
    };
    match code_end(&v, h + 1) {
        Some(e) => {
            proof {
                assert(v@.take(p as int) =~= v@.subrange(0, p as int));
            }
            Some((from_chars(&v, 0, p), from_chars(&v, h + 1, e)))
        },
        None => None,
    }
}

/// Whether a task belongs to a worker: it is addressed to the worker's name and was created
/// strictly later than the worker was registered. Both stamps have to be readable.
pub open spec fn belongs(t: InFlight, w: AgentSnapshot) -> bool {
    t.to@ == w.name@ && match (stamp::epoch(t.created_at@), stamp::epoch(w.registered_at@)) {
        (Some(created), Some(registered)) => created > registered,
        _ => false,
    }
}

/// Whether a task is attached to a worker.
///
/// Stamps have a resolution of one second. A task of the same second may be older than the
/// worker, so it is not attached: a task that is left out shows up as unattached, while one
/// attached to the wrong generation would not be noticed.
pub fn attached(task: &InFlight, w: &AgentSnapshot) -> (r: bool)
    ensures
        r == belongs(*task, *w),
{
    if !same(task.to.as_str(), w.name.as_str()) {
        return false;
    }
    match parse_iso_to_epoch(task.created_at.as_str()) {
        Some(created) => match parse_iso_to_epoch(w.registered_at.as_str()) {
            Some(registered) => created > registered,
            None => false,
        },
        None => false,
    }
}

} // verus!
