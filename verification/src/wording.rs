//! What the operations on texts do: lines, words, blanks, numbers, durations and the order of texts.

use crate::model;
use crate::text;
use vstd::prelude::*;

verus! {

/// The lines of a text: the part up to a line break, without a carriage return before it, and then
/// the lines of the rest. What has no line break is one line, if it is anything.
pub proof fn how_a_text_falls_into_lines(a: Seq<char>, rest: Seq<char>)
    requires
        !a.contains('\n'),
    ensures
        a.len() > 0 ==> text::text_lines(a) == seq![a],
        text::text_lines(Seq::empty()).len() == 0,
        (a.len() == 0 || a.last() != '\r') ==> text::text_lines(a + seq!['\n'] + rest) == seq![a]
            + text::text_lines(rest),
        a.len() > 0 && a.last() == '\r' ==> text::text_lines(a + seq!['\n'] + rest) == seq![
            a.take(a.len() - 1),
        ] + text::text_lines(rest),
{
    where_a_letter_first_stands(a, '\n');
    let whole = a + seq!['\n'] + rest;
    where_a_letter_first_stands(whole, '\n');
    let e = text::first_at(whole, '\n');
    assert(whole[a.len() as int] == '\n');
    assert(whole.contains('\n'));
    if e < a.len() {
        assert(a[e] == '\n');
        assert(a.contains('\n'));
    }
    assert(e == a.len());
    assert(whole.take(e) =~= a);
    assert(whole.skip(e + 1) =~= rest);
    if a.len() > 0 {
        assert(a.drop_last() =~= a.take(a.len() - 1));
    }
}

/// The place where a letter first stands in a text; the text's length where it stands nowhere.
pub proof fn where_a_letter_first_stands(s: Seq<char>, c: char)
    ensures
        ({
            let e = text::first_at(s, c);
            &&& 0 <= e <= s.len()
            &&& forall|i: int| 0 <= i < e ==> #[trigger] s[i] != c
            &&& e < s.len() ==> s[e] == c
            &&& e < s.len() <==> s.contains(c)
        }),
    decreases s.len(),
{
    if s.len() > 0 && s[0] != c {
        let t = s.skip(1);
        where_a_letter_first_stands(t, c);
        let e = text::first_at(s, c);
        assert forall|i: int| 0 <= i < e implies #[trigger] s[i] != c by {
            if i > 0 {
                assert(s[i] == t[i - 1]);
            }
        }
        if s.contains(c) {
            let k = s.index_of(c);
            assert(t[k - 1] == c);
        }
        if e < s.len() {
            assert(s[e] == t[e - 1]);
        }
    } else if s.len() > 0 {
        assert(s[0] == c);
    }
}

/// The place where a letter last stands in a text; -1 where it stands nowhere.
pub proof fn where_a_letter_last_stands(s: Seq<char>, c: char)
    ensures
        ({
            let e = text::last_at(s, c);
            &&& -1 <= e < s.len()
            &&& forall|i: int| e < i < s.len() ==> #[trigger] s[i] != c
            &&& e >= 0 ==> s[e] == c
            &&& e >= 0 <==> s.contains(c)
        }),
    decreases s.len(),
{
    if s.len() > 0 {
        assert(s.last() == s[s.len() - 1]);
        if s.last() != c {
            let t = s.drop_last();
            where_a_letter_last_stands(t, c);
            let e = text::last_at(s, c);
            assert forall|i: int| e < i < s.len() implies #[trigger] s[i] != c by {
                if i < s.len() - 1 {
                    assert(s[i] == t[i]);
                }
            }
            if s.contains(c) {
                let k = s.index_of(c);
                assert(t[k] == c);
            }
        }
    }
}

/// The blanks at the end of a text are what is taken off it: what is left is its beginning, ends
/// with no blank, and was followed by blanks alone.
pub proof fn what_is_trimmed_at_the_end(s: Seq<char>)
    ensures
        ({
            let t = text::trim_end(s);
            &&& t.len() <= s.len()
            &&& t == s.take(t.len() as int)
            &&& t.len() > 0 ==> !text::white_space(t.last())
            &&& forall|i: int| t.len() <= i < s.len() ==> text::white_space(#[trigger] s[i])
        }),
    decreases s.len(),
{
    if s.len() > 0 && text::white_space(s.last()) {
        let d = s.drop_last();
        what_is_trimmed_at_the_end(d);
        let t = text::trim_end(s);
        assert(t =~= s.take(t.len() as int));
        assert forall|i: int| t.len() <= i < s.len() implies text::white_space(#[trigger] s[i]) by {
            if i < s.len() - 1 {
                assert(s[i] == d[i]);
            }
        }
    } else {
        assert(s =~= s.take(s.len() as int));
    }
}

/// The same of the blanks at the beginning.
pub proof fn what_is_trimmed_at_the_start(s: Seq<char>)
    ensures
        ({
            let t = text::trim_start(s);
            &&& t.len() <= s.len()
            &&& t == s.skip(s.len() - t.len())
            &&& t.len() > 0 ==> !text::white_space(t[0])
            &&& forall|i: int|
                0 <= i < s.len() - t.len() ==> text::white_space(#[trigger] s[i])
        }),
    decreases s.len(),
{
    if s.len() > 0 && text::white_space(s[0]) {
        let d = s.skip(1);
        what_is_trimmed_at_the_start(d);
        let t = text::trim_start(s);
        assert(t =~= s.skip(s.len() - t.len()));
        assert forall|i: int| 0 <= i < s.len() - t.len() implies text::white_space(
            #[trigger] s[i],
        ) by {
            if i > 0 {
                assert(s[i] == d[i - 1]);
            }
        }
    } else {
        assert(s =~= s.skip(0));
    }
}

/// Of the letters below 128, the tab, the line breaks and the blank are white space, and nothing
/// else is; above them, the spaces of other scripts.
pub proof fn which_letters_are_blank(c: char)
    ensures
        (c as int) < 128 ==> (text::white_space(c) <==> c == ' ' || 9 <= c as int <= 13),
        128 <= (c as int) ==> (text::white_space(c) <==> c as int == 0x85 || c as int == 0xa0
            || c as int == 0x1680 || 0x2000 <= c as int <= 0x200a || c as int == 0x2028 || c as int
            == 0x2029 || c as int == 0x202f || c as int == 0x205f || c as int == 0x3000),
{
}

/// A text that is to stand on one line keeps its length and its letters, but for the control
/// letters, which become blanks.
pub proof fn what_is_scrubbed(s: Seq<char>)
    ensures
        model::scrubbed(s).len() == s.len(),
        forall|i: int|
            #![trigger model::scrubbed(s)[i]]
            0 <= i < s.len() ==> model::scrubbed(s)[i] == (if (s[i] as int) < 32 || 127 <= s[i] as int
                <= 159 {
                ' '
            } else {
                s[i]
            }),
{
}

/// The number that a text of decimal digits stands for.
pub open spec fn number(s: Seq<char>) -> int
    decreases s.len(),
{
    if s.len() == 0 {
        0
    } else {
        number(s.drop_last()) * 10 + (s.last() as int - 48)
    }
}

/// A number is written in decimal digits, without a leading zero, and read back it is the number.
pub proof fn how_a_number_is_written(n: nat)
    ensures
        number(text::dec(n)) == n,
        text::dec(n).len() > 0,
        forall|i: int| 0 <= i < text::dec(n).len() ==> '0' <= #[trigger] text::dec(n)[i] <= '9',
        n > 0 ==> text::dec(n)[0] != '0',
        n == 0 ==> text::dec(n) == seq!['0'],
    decreases n,
{
    let s = text::dec(n);
    if n < 10 {
        assert(s.drop_last() =~= Seq::empty());
        assert(number(s.drop_last()) == 0);
        assert(s.last() as int == 48 + n);
    } else {
        let t = text::dec(n / 10);
        how_a_number_is_written(n / 10);
        assert(s.drop_last() =~= t);
        assert(s.last() as int == 48 + n % 10);
        assert(s[0] == t[0]);
        assert forall|i: int| 0 <= i < s.len() implies '0' <= #[trigger] s[i] <= '9' by {
            if i < t.len() {
                assert(s[i] == t[i]);
            }
        }
    }
}

/// A number below a hundred is written with two digits.
pub proof fn how_two_digits_are_written(n: nat)
    requires
        n < 100,
    ensures
        text::dec2(n).len() == 2,
        number(text::dec2(n)) == n,
        '0' <= text::dec2(n)[0] <= '9',
        '0' <= text::dec2(n)[1] <= '9',
{
    how_a_number_is_written(n);
    reveal_with_fuel(text::dec, 3);
    reveal_with_fuel(number, 3);
    let s = text::dec2(n);
    assert(s.len() == 2);
    assert(s.drop_last().drop_last() =~= Seq::empty());
    assert(s.drop_last().last() == s[0]);
    if n < 10 {
        assert(s[0] == '0');
        assert(s[1] as int == 48 + n);
    } else {
        assert(s[0] as int == 48 + n / 10);
        assert(s[1] as int == 48 + n % 10);
    }
}

/// A duration is written in seconds below a minute, in minutes and seconds below an hour, in hours
/// and minutes below a day, and then in whole days; nothing is rounded up.
pub proof fn how_a_duration_is_written(d: nat, h: nat, m: nat, s: nat)
    requires
        h < 24,
        m < 60,
        s < 60,
    ensures
        ({
            let secs = (d * 86_400 + h * 3600 + m * 60 + s) as int;
            let out = model::secs_text(secs);
            &&& d > 0 ==> out == text::dec(d) + seq!['d']
            &&& d == 0 && h > 0 ==> out == text::dec(h) + seq!['h'] + text::dec2(m) + seq!['m']
            &&& d == 0 && h == 0 && m > 0 ==> out == text::dec(m) + seq!['m'] + text::dec2(s)
                + seq!['s']
            &&& d == 0 && h == 0 && m == 0 ==> out == text::dec(s) + seq!['s']
        }),
{
    reveal_strlit("d");
    reveal_strlit("h");
    reveal_strlit("m");
    reveal_strlit("s");
    assert("d"@ =~= seq!['d']);
    assert("h"@ =~= seq!['h']);
    assert("m"@ =~= seq!['m']);
    assert("s"@ =~= seq!['s']);
    let secs = (d * 86_400 + h * 3600 + m * 60 + s) as int;
    if d > 0 {
        assert(secs / 86_400 == d);
    } else if h > 0 {
        assert(secs / 3600 == h);
        assert((secs % 3600) / 60 == m);
    } else if m > 0 {
        assert(secs / 60 == m);
        assert(secs % 60 == s);
    }
}

/// A text is cut to a width: what fits stays as it is, else all but one of the width's letters are
/// kept and an ellipsis ends it.
pub proof fn how_a_text_is_cut(s: Seq<char>, width: int)
    ensures
        width <= 0 ==> text::truncated(s, width).len() == 0,
        width > 0 && s.len() <= width ==> text::truncated(s, width) == s,
        width > 0 && s.len() > width ==> {
            &&& text::truncated(s, width).len() == width
            &&& text::truncated(s, width).last() == '\u{2026}'
            &&& forall|i: int|
                0 <= i < width - 1 ==> #[trigger] text::truncated(s, width)[i] == s[i]
        },
{
}

/// Texts are put together in their order, with the separator between any two and nowhere else.
pub proof fn how_texts_are_joined(s: Seq<Seq<char>>, x: Seq<char>, sep: Seq<char>)
    ensures
        text::join(Seq::empty(), sep).len() == 0,
        text::join(seq![x], sep) == x,
        s.len() > 0 ==> text::join(s.push(x), sep) == text::join(s, sep) + sep + x,
{
    if s.len() > 0 {
        assert(s.push(x).drop_last() =~= s);
    }
}

/// One text stands before another where, at the first place at which they differ, its letter is
/// the smaller one, or where it ends there.
pub proof fn how_texts_are_ordered(a: Seq<char>, b: Seq<char>, k: int)
    requires
        0 <= k <= a.len(),
        k <= b.len(),
        a.take(k) == b.take(k),
    ensures
        k < a.len() && k < b.len() && a[k] != b[k] ==> (text::less(a, b) <==> a[k] < b[k]),
        k == a.len() && k < b.len() ==> text::less(a, b),
        k == b.len() ==> !text::less(a, b),
    decreases k,
{
    if k > 0 {
        assert(a[0] == a.take(k)[0] && b[0] == b.take(k)[0]);
        assert(a[0] == b[0]);
        assert(a.skip(1).take(k - 1) =~= a.take(k).skip(1));
        assert(b.skip(1).take(k - 1) =~= b.take(k).skip(1));
        how_texts_are_ordered(a.skip(1), b.skip(1), k - 1);
        assert(text::less(a, b) == text::less(a.skip(1), b.skip(1)));
        if k < a.len() && k < b.len() {
            assert(a.skip(1)[k - 1] == a[k] && b.skip(1)[k - 1] == b[k]);
        }
    }
}

/// The words of a text are its parts between blanks: the first word is what stands before the
/// first blank, and the next ones are the words of what follows.
pub proof fn how_a_text_falls_into_words(w: Seq<char>, c: char, rest: Seq<char>, n: nat)
    requires
        w.len() > 0,
        forall|i: int| 0 <= i < w.len() ==> !text::white_space(#[trigger] w[i]),
        text::white_space(c),
    ensures
        model::word(w, 0) == Some(w),
        model::word(w, n + 1) is None,
        model::word(w + seq![c] + rest, 0) == Some(w),
        model::word(w + seq![c] + rest, n + 1) == model::word(rest, n),
        model::word(seq![c] + rest, n) == model::word(rest, n),
        model::word(Seq::empty(), n) is None,
{
    let s = w + seq![c] + rest;
    assert(s[0] == w[0]);
    lemma_word_end(w, Seq::empty());
    assert(w + Seq::<char>::empty() =~= w);
    assert(w.take(w.len() as int) =~= w);
    assert(w.skip(w.len() as int) =~= Seq::empty());
    assert(w + (seq![c] + rest) =~= s);
    lemma_word_end(w, seq![c] + rest);
    assert(s.take(w.len() as int) =~= w);
    assert(s.skip(w.len() as int) =~= seq![c] + rest);
    let u = seq![c] + rest;
    assert(u.skip(1) =~= rest);
    assert(text::trim_start(u) == text::trim_start(rest));
    assert(model::word(u, n) == model::word(rest, n));
    assert(model::word(s, n + 1) == model::word(u, n));
    assert(model::word(w, n + 1) == model::word(Seq::empty(), n));
}

/// A word ends at the first blank.
proof fn lemma_word_end(w: Seq<char>, rest: Seq<char>)
    requires
        forall|i: int| 0 <= i < w.len() ==> !text::white_space(#[trigger] w[i]),
        rest.len() == 0 || text::white_space(rest[0]),
    ensures
        model::word_end(w + rest) == w.len(),
    decreases w.len(),
{
    let s = w + rest;
    if w.len() > 0 {
        assert(s.skip(1) =~= w.skip(1) + rest);
        assert(s[0] == w[0]);
        lemma_word_end(w.skip(1), rest);
    } else {
        assert(s =~= rest);
    }
}

/// A text starts with another where the other is followed by the rest of it.
pub proof fn what_starting_with_means(s: Seq<char>, p: Seq<char>)
    ensures
        text::starts(s, p) <==> exists|rest: Seq<char>| #[trigger] (p + rest) == s,
{
    if text::starts(s, p) {
        assert(p + s.skip(p.len() as int) =~= s);
    }
    if exists|rest: Seq<char>| #[trigger] (p + rest) == s {
        let rest = choose|rest: Seq<char>| #[trigger] (p + rest) == s;
        assert((p + rest).subrange(0, p.len() as int) =~= p);
    }
}

/// A negative number is written with a minus sign before its amount.
pub proof fn how_a_signed_number_is_written(n: nat)
    ensures
        text::dec_int(n as int) == text::dec(n),
        n > 0 ==> text::dec_int(-(n as int)) == seq!['-'] + text::dec(n),
{
}

} // verus!
