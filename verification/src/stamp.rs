//! Time stamps of the form `YYYY-MM-DDTHH:MM:SSZ`.

use crate::text::to_chars;
use vstd::prelude::*;

verus! {

/// Whether a character is a decimal digit.
pub open spec fn decimal(c: char) -> bool {
    '0' <= c <= '9'
}

/// The value of a decimal digit.
pub open spec fn digit_value(c: char) -> int {
    c as int - '0' as int
}

/// Whether every place but the separators holds a digit, and the separators are in place.
pub open spec fn stamp_shape(s: Seq<char>) -> bool {
    &&& s.len() == 20
    &&& s[4] == '-'
    &&& s[7] == '-'
    &&& s[10] == 'T'
    &&& s[13] == ':'
    &&& s[16] == ':'
    &&& s[19] == 'Z'
    &&& forall|i: int|
        0 <= i < 19 && i != 4 && i != 7 && i != 10 && i != 13 && i != 16 ==> decimal(#[trigger] s[i])
}

/// The number that stands in two places.
pub open spec fn two(s: Seq<char>, i: int) -> int {
    digit_value(s[i]) * 10 + digit_value(s[i + 1])
}

/// The year of a stamp.
pub open spec fn year_of(s: Seq<char>) -> int {
    two(s, 0) * 100 + two(s, 2)
}

/// Whether a year of the Gregorian calendar has 366 days.
pub open spec fn leap(y: int) -> bool {
    y % 4 == 0 && (y % 100 != 0 || y % 400 == 0)
}

/// The number of days of a month.
pub open spec fn month_days(y: int, m: int) -> int {
    if m == 2 {
        if leap(y) {
            29
        } else {
            28
        }
    } else if m == 4 || m == 6 || m == 9 || m == 11 {
        30
    } else {
        31
    }
}

/// The number of days of a year before the first of a month.
pub open spec fn days_before_month(y: int, m: int) -> int
    decreases m,
{
    if m <= 1 {
        0
    } else {
        days_before_month(y, m - 1) + month_days(y, m - 1)
    }
}

/// The number of days of the years from 0 up to, and not with, `y`.
pub open spec fn days_before_year(y: int) -> int {
    365 * y + (y + 3) / 4 - (y + 99) / 100 + (y + 399) / 400
}

/// Whether the fields of a stamp name a day of the calendar and a time of that day.
pub open spec fn real_date(s: Seq<char>) -> bool {
    &&& 1 <= two(s, 5) <= 12
    &&& 1 <= two(s, 8) <= month_days(year_of(s), two(s, 5))
    &&& two(s, 11) < 24
    &&& two(s, 14) < 60
    &&& two(s, 17) < 60
}

/// Whether a text is a stamp.
pub open spec fn is_stamp(s: Seq<char>) -> bool {
    stamp_shape(s) && real_date(s)
}

/// The days from the first of January 1970 to the day of a stamp.
pub open spec fn day_of(s: Seq<char>) -> int {
    days_before_year(year_of(s)) - days_before_year(1970) + days_before_month(
        year_of(s),
        two(s, 5),
    ) + two(s, 8) - 1
}

/// The seconds from the first of January 1970 to a stamp.
pub open spec fn epoch_of(s: Seq<char>) -> int {
    day_of(s) * 86_400 + two(s, 11) * 3600 + two(s, 14) * 60 + two(s, 17)
}

/// The seconds of a text that is a stamp.
pub open spec fn epoch(s: Seq<char>) -> Option<int> {
    if is_stamp(s) {
        Some(epoch_of(s))
    } else {
        None
    }
}

/// The seconds that a stamp stands for, as a mathematical integer.
pub open spec fn as_epoch(e: Option<i64>) -> Option<int> {
    match e {
        Some(v) => Some(v as int),
        None => None,
    }
}

/// The latest time from which the seconds back to any stamp can be counted.
pub const NOW_MAX: i64 = 9_223_371_974_687_556_607;

/// The days before a month are not negative.
proof fn lemma_days_before_month(y: int, m: int)
    ensures
        days_before_month(y, m) >= 0,
    decreases m,
{
    if m > 1 {
        lemma_days_before_month(y, m - 1);
    }
}

/// No stamp lies before the year 0, so the seconds from any stamp to now can be counted.
pub proof fn stamps_can_be_counted_from(s: Seq<char>, now: i64)
    requires
        now <= NOW_MAX,
    ensures
        epoch(s) matches Some(at) ==> now - at <= i64::MAX,
{
    if is_stamp(s) {
        let y = year_of(s);
        lemma_days_before_month(y, two(s, 5));
        assert(y >= 0);
        assert(days_before_year(y) >= 0);
        assert(days_before_year(1970) == 719_528);
    }
}

/// The number in places `i` and `i + 1`.
fn two_digits(v: &Vec<char>, i: usize) -> (n: i64)
    requires
        i < 18,
        v@.len() == 20,
        decimal(v@[i as int]),
        decimal(v@[i + 1]),
    ensures
        n == two(v@, i as int),
        0 <= n < 100,
{
    let a: i64 = (v[i] as u32 - '0' as u32) as i64;
    let b: i64 = (v[i + 1] as u32 - '0' as u32) as i64;
    a * 10 + b
}

/// Whether a text has the shape of a stamp.
fn has_shape(v: &Vec<char>) -> (r: bool)
    ensures
        r == stamp_shape(v@),
{
    if v.len() != 20 {
        return false;
    }
    if v[4] != '-' || v[7] != '-' || v[10] != 'T' || v[13] != ':' || v[16] != ':' || v[19] != 'Z' {
        return false;
    }
    let mut i: usize = 0;
    while i < 19
        invariant
            i <= 19,
            v@.len() == 20,
            forall|j: int|
                0 <= j < i && j != 4 && j != 7 && j != 10 && j != 13 && j != 16 ==> decimal(
                    #[trigger] v@[j],
                ),
        decreases 19 - i,
    {
        if i != 4 && i != 7 && i != 10 && i != 13 && i != 16 && !('0' <= v[i] && v[i] <= '9') {
            return false;
        }
        i += 1;
    }
    true
}

/// The number of days of a month.
fn days_in(y: i64, m: i64) -> (n: i64)
    requires
        0 <= y < 10_000,
        1 <= m <= 12,
    ensures
        n == month_days(y as int, m as int),
        28 <= n <= 31,
{
    if m == 2 {
        if y % 4 == 0 && (y % 100 != 0 || y % 400 == 0) {
            29
        } else {
            28
        }
    } else if m == 4 || m == 6 || m == 9 || m == 11 {
        30
    } else {
        31
    }
}

/// The seconds since 1970 of a stamp; `None` for a text that is no stamp: one with another
/// shape, or one that names no day of the calendar or no time of a day.
pub fn parse_iso_to_epoch(s: &str) -> (r: Option<i64>)
    ensures
        as_epoch(r) == epoch(s@),
{
    let v = to_chars(s);
    if !has_shape(&v) {
        return None;
    }
    let y: i64 = two_digits(&v, 0) * 100 + two_digits(&v, 2);
    let m: i64 = two_digits(&v, 5);
    let d: i64 = two_digits(&v, 8);
    let h: i64 = two_digits(&v, 11);
    let mi: i64 = two_digits(&v, 14);
    let sec: i64 = two_digits(&v, 17);
    if m < 1 || m > 12 || h >= 24 || mi >= 60 || sec >= 60 {
        return None;
    }
    if d < 1 || d > days_in(y, m) {
        return None;
    }
    let mut before: i64 = 0;
    let mut k: i64 = 1;
    while k < m
        invariant
            1 <= k <= m <= 12,
            0 <= y < 10_000,
            before == days_before_month(y as int, k as int),
            0 <= before <= 31 * (k - 1),
        decreases m - k,
    {
        before += days_in(y, k);
        k += 1;
    }
    let days: i64 = 365 * y + (y + 3) / 4 - (y + 99) / 100 + (y + 399) / 400 - 719_528 + before + d
        - 1;
    Some(days * 86_400 + h * 3600 + mi * 60 + sec)
}

} // verus!
