//! What a time stamp says: which texts are stamps, and how the seconds go on from one to the next.

use crate::model;
use crate::registry;
use crate::registry::{AgentSnapshot, InFlight};
use crate::stamp;
use crate::text;
use vstd::prelude::*;

verus! {

/// The number that two digits of a text stand for.
pub open spec fn pair(s: Seq<char>, i: int) -> int {
    (s[i] as int - 48) * 10 + (s[i + 1] as int - 48)
}

/// The year of a stamp.
pub open spec fn year(s: Seq<char>) -> int {
    pair(s, 0) * 100 + pair(s, 2)
}

/// The number of days of a month.
pub open spec fn length_of(y: int, m: int) -> int {
    if m == 4 || m == 6 || m == 9 || m == 11 {
        30
    } else if m != 2 {
        31
    } else if y % 400 == 0 || (y % 4 == 0 && y % 100 != 0) {
        29
    } else {
        28
    }
}

/// A text is a stamp where it is written as `2026-01-31T23:59:59Z` is and names a day of the
/// calendar and a time of the day. No other text has a time.
pub proof fn which_texts_are_stamps(s: Seq<char>)
    ensures
        stamp::epoch(s) is Some <==> {
            &&& s.len() == 20
            &&& s[4] == '-' && s[7] == '-' && s[10] == 'T' && s[13] == ':' && s[16] == ':' && s[19]
                == 'Z'
            &&& forall|i: int|
                0 <= i < 20 && i != 4 && i != 7 && i != 10 && i != 13 && i != 16 && i != 19 ==> '0'
                    <= #[trigger] s[i] <= '9'
            &&& 1 <= pair(s, 5) <= 12
            &&& 1 <= pair(s, 8) <= length_of(year(s), pair(s, 5))
            &&& pair(s, 11) < 24 && pair(s, 14) < 60 && pair(s, 17) < 60
        },
{
    assert('0' as int == 48);
}

/// Within a day a stamp counts its hours, minutes and seconds; the first second of 1970 is 0.
pub proof fn how_seconds_go_on_within_a_day(a: Seq<char>, b: Seq<char>)
    requires
        stamp::epoch(a) is Some,
        stamp::epoch(b) is Some,
        year(a) == year(b),
        pair(a, 5) == pair(b, 5),
        pair(a, 8) == pair(b, 8),
    ensures
        stamp::epoch(b)->0 - stamp::epoch(a)->0 == (pair(b, 11) - pair(a, 11)) * 3600 + (pair(b, 14)
            - pair(a, 14)) * 60 + (pair(b, 17) - pair(a, 17)),
        year(a) == 1970 && pair(a, 5) == 1 && pair(a, 8) == 1 && pair(a, 11) == 0 && pair(a, 14)
            == 0 && pair(a, 17) == 0 ==> stamp::epoch(a) == Some(0int),
{
    assert('0' as int == 48);
}

/// From one day to the next, at the same time of the day, 86400 seconds go by: within a month, from
/// a month's last day to the first of the next month, and from the last day of a year to the first
/// of the next.
pub proof fn how_seconds_go_on_from_day_to_day(a: Seq<char>, b: Seq<char>)
    requires
        stamp::epoch(a) is Some,
        stamp::epoch(b) is Some,
        pair(a, 11) == pair(b, 11),
        pair(a, 14) == pair(b, 14),
        pair(a, 17) == pair(b, 17),
        ({
            ||| year(b) == year(a) && pair(b, 5) == pair(a, 5) && pair(b, 8) == pair(a, 8) + 1
            ||| year(b) == year(a) && pair(b, 5) == pair(a, 5) + 1 && pair(b, 8) == 1 && pair(a, 8)
                == length_of(year(a), pair(a, 5))
            ||| year(b) == year(a) + 1 && pair(b, 5) == 1 && pair(b, 8) == 1 && pair(a, 5) == 12
                && pair(a, 8) == 31
        }),
    ensures
        stamp::epoch(b)->0 == stamp::epoch(a)->0 + 86_400,
{
    assert('0' as int == 48);
    let y = year(a);
    assert(stamp::year_of(a) == y);
    if year(b) == y + 1 {
        lemma_months(y);
        lemma_next_year(y);
        reveal_with_fuel(stamp::days_before_month, 2);
    }
}

/// The days before a month of a year.
proof fn lemma_months(y: int)
    ensures
        stamp::days_before_month(y, 12) == (if stamp::leap(y) {
            335int
        } else {
            334
        }),
        forall|m: int|
            1 <= m <= 12 ==> 0 <= #[trigger] stamp::days_before_month(y, m)
                <= stamp::days_before_month(y, 12),
{
    assert(stamp::days_before_month(y, 1) == 0);
    assert(stamp::days_before_month(y, 2) == 31);
    let f = stamp::month_days(y, 2);
    assert(stamp::days_before_month(y, 3) == 31 + f);
    assert(stamp::days_before_month(y, 4) == 62 + f);
    assert(stamp::days_before_month(y, 5) == 92 + f);
    assert(stamp::days_before_month(y, 6) == 123 + f);
    assert(stamp::days_before_month(y, 7) == 153 + f);
    assert(stamp::days_before_month(y, 8) == 184 + f);
    assert(stamp::days_before_month(y, 9) == 215 + f);
    assert(stamp::days_before_month(y, 10) == 245 + f);
    assert(stamp::days_before_month(y, 11) == 276 + f);
    assert(stamp::days_before_month(y, 12) == 306 + f);
}

/// One more fourth year.
proof fn lemma_fours(y: int)
    ensures
        (y + 1 + 3) / 4 == (y + 3) / 4 + (if y % 4 == 0 {
            1int
        } else {
            0
        }),
{
}

/// One more hundredth year.
proof fn lemma_hundreds(y: int)
    ensures
        (y + 1 + 99) / 100 == (y + 99) / 100 + (if y % 100 == 0 {
            1int
        } else {
            0
        }),
{
}

/// One more four hundredth year.
proof fn lemma_four_hundreds(y: int)
    ensures
        (y + 1 + 399) / 400 == (y + 399) / 400 + (if y % 400 == 0 {
            1int
        } else {
            0
        }),
{
}

/// Every four hundredth year is a hundredth one, and every hundredth one a fourth.
proof fn lemma_multiples(y: int)
    ensures
        y % 400 == 0 ==> y % 100 == 0,
        y % 100 == 0 ==> y % 4 == 0,
{
}

/// A year has 366 days where it is a leap year and 365 else.
proof fn lemma_next_year(y: int)
    requires
        y >= 0,
    ensures
        stamp::days_before_year(y + 1) - stamp::days_before_year(y) == (if stamp::leap(y) {
            366int
        } else {
            365
        }),
{
    lemma_fours(y);
    lemma_hundreds(y);
    lemma_four_hundreds(y);
    lemma_multiples(y);
}

/// A later year begins later.
proof fn lemma_years(y: int, z: int)
    requires
        0 <= y < z,
    ensures
        stamp::days_before_year(y + 1) <= stamp::days_before_year(z),
    decreases z - y,
{
    if y + 1 < z {
        lemma_years(y, z - 1);
        lemma_next_year(z - 1);
    }
}

/// A later month begins after an earlier one has ended.
proof fn lemma_later_month(y: int, m: int, k: int)
    requires
        1 <= m < k,
    ensures
        stamp::days_before_month(y, m) + stamp::month_days(y, m) <= stamp::days_before_month(y, k),
    decreases k,
{
    if m < k - 1 {
        lemma_later_month(y, m, k - 1);
    }
}

/// The later of two stamps is the greater text.
pub proof fn a_later_stamp_is_a_greater_text(a: Seq<char>, b: Seq<char>)
    requires
        stamp::epoch(a) is Some,
        stamp::epoch(b) is Some,
    ensures
        text::less(a, b) <==> stamp::epoch(a)->0 < stamp::epoch(b)->0,
        a == b <==> stamp::epoch(a)->0 == stamp::epoch(b)->0,
{
    text::lemma_less_total(a, b);
    text::lemma_less_irreflexive(a);
    if text::less(a, b) {
        lemma_less_is_earlier(a, b);
    } else if text::less(b, a) {
        lemma_less_is_earlier(b, a);
    }
}

/// A smaller text of the same length has the smaller letter where the two first differ.
proof fn lemma_first_difference(a: Seq<char>, b: Seq<char>) -> (k: int)
    requires
        text::less(a, b),
        a.len() == b.len(),
    ensures
        0 <= k < a.len(),
        a[k] < b[k],
        forall|i: int| 0 <= i < k ==> #[trigger] a[i] == b[i],
    decreases a.len(),
{
    if a[0] != b[0] {
        0
    } else {
        let x = a.skip(1);
        let y = b.skip(1);
        let j = lemma_first_difference(x, y);
        assert(a[j + 1] == x[j] && b[j + 1] == y[j]);
        assert forall|i: int| 0 <= i < j + 1 implies #[trigger] a[i] == b[i] by {
            if i > 0 {
                assert(a[i] == x[i - 1] && b[i] == y[i - 1]);
            }
        }
        j + 1
    }
}

/// A smaller stamp is an earlier one.
proof fn lemma_less_is_earlier(a: Seq<char>, b: Seq<char>)
    requires
        stamp::is_stamp(a),
        stamp::is_stamp(b),
        text::less(a, b),
    ensures
        stamp::epoch_of(a) < stamp::epoch_of(b),
{
    let k = lemma_first_difference(a, b);
    assert(stamp::decimal(a[0]) && stamp::decimal(a[1]) && stamp::decimal(a[2]) && stamp::decimal(
        a[3],
    ));
    assert(stamp::decimal(b[0]) && stamp::decimal(b[1]) && stamp::decimal(b[2]) && stamp::decimal(
        b[3],
    ));
    assert(stamp::decimal(a[5]) && stamp::decimal(a[6]) && stamp::decimal(a[8]) && stamp::decimal(
        a[9],
    ));
    assert(stamp::decimal(b[5]) && stamp::decimal(b[6]) && stamp::decimal(b[8]) && stamp::decimal(
        b[9],
    ));
    assert(stamp::decimal(a[11]) && stamp::decimal(a[12]) && stamp::decimal(a[14])
        && stamp::decimal(a[15]) && stamp::decimal(a[17]) && stamp::decimal(a[18]));
    assert(stamp::decimal(b[11]) && stamp::decimal(b[12]) && stamp::decimal(b[14])
        && stamp::decimal(b[15]) && stamp::decimal(b[17]) && stamp::decimal(b[18]));
    let y = stamp::year_of(a);
    let z = stamp::year_of(b);
    let m = stamp::two(a, 5);
    let n = stamp::two(b, 5);
    if k < 4 {
        assert(y < z) by {
            assert(k == 0 || k == 1 || k == 2 || k == 3);
            if k > 0 {
                assert(a[0] == b[0]);
            }
            if k > 1 {
                assert(a[1] == b[1]);
            }
            if k > 2 {
                assert(a[2] == b[2]);
            }
        }
        lemma_years(y, z);
        lemma_next_year(y);
        lemma_months(y);
        lemma_months(z);
        assert(0 <= stamp::days_before_month(z, n));
        lemma_in_the_year(y, m);
        assert(stamp::day_of(a) < stamp::day_of(b));
    } else {
        assert(a[0] == b[0] && a[1] == b[1] && a[2] == b[2] && a[3] == b[3]);
        assert(y == z);
        if k < 7 {
            assert(k == 5 || k == 6);
            if k > 5 {
                assert(a[5] == b[5]);
            }
            assert(m < n);
            lemma_later_month(y, m, n);
            assert(stamp::day_of(a) < stamp::day_of(b));
        } else {
            assert(a[5] == b[5] && a[6] == b[6]);
            assert(m == n);
            if k < 10 {
                assert(k == 8 || k == 9);
                if k > 8 {
                    assert(a[8] == b[8]);
                }
                assert(stamp::day_of(a) < stamp::day_of(b));
            } else {
                assert(a[8] == b[8] && a[9] == b[9]);
                assert(stamp::day_of(a) == stamp::day_of(b));
                if k > 12 {
                    assert(a[11] == b[11] && a[12] == b[12]);
                } else if k == 12 {
                    assert(a[11] == b[11]);
                }
                if k > 15 {
                    assert(a[14] == b[14] && a[15] == b[15]);
                } else if k == 15 {
                    assert(a[14] == b[14]);
                }
                if k == 18 {
                    assert(a[17] == b[17]);
                }
                assert(k != 19 && k != 10 && k != 13 && k != 16);
            }
        }
    }
}

/// Every month ends within its year.
proof fn lemma_in_the_year(y: int, m: int)
    requires
        1 <= m <= 12,
    ensures
        stamp::days_before_month(y, m) + stamp::month_days(y, m) <= (if stamp::leap(y) {
            366int
        } else {
            365
        }),
{
    lemma_months(y);
    if m < 12 {
        lemma_later_month(y, m, 12);
    }
}

/// A task belongs to a worker where it was sent to the worker's name and created after the worker
/// was registered; where either time cannot be read it belongs to nobody.
pub proof fn when_a_task_belongs_to_a_worker(t: InFlight, w: AgentSnapshot)
    ensures
        registry::belongs(t, w) <==> {
            &&& t.to@ == w.name@
            &&& stamp::epoch(t.created_at@) is Some
            &&& stamp::epoch(w.registered_at@) is Some
            &&& text::less(w.registered_at@, t.created_at@)
        },
{
    if stamp::epoch(t.created_at@) is Some && stamp::epoch(w.registered_at@) is Some {
        a_later_stamp_is_a_greater_text(w.registered_at@, t.created_at@);
    }
}

/// How long ago a task was created is the time from its stamp to now; before that, and without a
/// stamp, a dash stands for it.
pub proof fn how_old_a_task_is(created: Seq<char>, now: int)
    ensures
        match stamp::epoch(created) {
            Some(at) => if at <= now {
                model::elapsed_text(created, now) == model::secs_text(now - at)
            } else {
                model::elapsed_text(created, now) == "-"@
            },
            None => model::elapsed_text(created, now) == "-"@,
        },
{
}

/// How long ago an event was is the time from the stamp that its line begins with; without one, or
/// where it lies ahead, nothing is said.
pub proof fn how_long_ago_an_event_was(ts: Seq<char>, c: char, rest: Seq<char>, now: int)
    requires
        stamp::epoch(ts) is Some,
        text::white_space(c),
    ensures
        stamp::epoch(ts)->0 <= now ==> model::ago_text(ts + seq![c] + rest, now) == Some(
            model::secs_text(now - stamp::epoch(ts)->0),
        ),
        stamp::epoch(ts)->0 > now ==> model::ago_text(ts + seq![c] + rest, now) is None,
{
    assert forall|i: int| 0 <= i < ts.len() implies !text::white_space(#[trigger] ts[i]) by {
        if i != 4 && i != 7 && i != 10 && i != 13 && i != 16 && i != 19 {
            assert(stamp::decimal(ts[i]));
        }
    }
    crate::wording::how_a_text_falls_into_words(ts, c, rest, 0);
}

/// The later of two times is the one that is not earlier than the other; one that is not known does
/// not count.
pub proof fn which_time_is_later(x: int, y: int)
    ensures
        model::later(Some(x), Some(y)) matches Some(z) && z >= x && z >= y && (z == x || z == y),
        model::later(Some(x), None) == Some(x),
        model::later(None, Some(y)) == Some(y),
        model::later(None, None) is None,
{
}

} // verus!
