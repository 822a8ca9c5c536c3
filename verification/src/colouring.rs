//! What the colours say: the palettes, and how a page of text is coloured line by line.

use crate::paint;
use crate::paint::{FenceView, Mark, Reading};
use crate::text;
use crate::theme;
use crate::theme::{Color, Palette, SpanView, Style};
use vstd::prelude::*;

verus! {

/// The full palette is taken where the terminal says that it has all colours, by either of two
/// words, with blanks around it or not.
pub proof fn when_all_colours_are_used(s: Seq<char>)
    ensures
        !theme::promises_full(None),
        theme::promises_full(Some(s)) <==> text::trim(s) == "truecolor"@ || text::trim(s)
            == "24bit"@,
        text::trim(s) == text::trim_end(text::trim_start(s)),
{
}

/// In both palettes what is good is green, what is bad is red, what waits and what is warned of is
/// yellow, what runs is cyan, and what matters less is grey.
pub proof fn what_the_colours_stand_for()
    ensures
        ({
            let p = Palette::sixteen();
            &&& p.completed == Color::Green && p.live == Color::Green && p.diff_add == Color::Green
            &&& p.failed == Color::Red && p.dead == Color::Red && p.blocked == Color::Red
                && p.diff_del == Color::Red
            &&& p.pending == Color::Yellow && p.warning == Color::Yellow && p.md_list
                == Color::Yellow
            &&& p.running == Color::Cyan && p.md_code == Color::Cyan
            &&& p.dim == Color::DarkGray
            &&& p.selected_bg == Color::Blue && p.md_meta == Color::Blue
            &&& p.md_heading == Color::Magenta
        }),
        ({
            let p = Palette::full();
            &&& p.completed == Color::Rgb(0x98, 0xC3, 0x79) && p.live == p.completed && p.diff_add
                == p.completed
            &&& p.failed == Color::Rgb(0xE0, 0x6C, 0x75) && p.dead == p.failed && p.blocked
                == p.failed && p.diff_del == p.failed
            &&& p.pending == Color::Rgb(0xE5, 0xC0, 0x7B) && p.warning == p.pending && p.md_list
                == p.pending
            &&& p.running == Color::Rgb(0x56, 0xB6, 0xC2) && p.md_code == p.running
            &&& p.dim == Color::Rgb(0x5C, 0x63, 0x70)
            &&& p.selected_bg == Color::Rgb(0x2C, 0x4F, 0x7C)
            &&& p.md_meta == Color::Rgb(0x61, 0xAF, 0xEF)
            &&& p.md_heading == Color::Rgb(0xC6, 0x78, 0xDD)
        }),
{
}

/// How often a letter stands in a row from a place on.
pub proof fn how_long_a_run_is(s: Seq<char>, c: char, from: int)
    requires
        0 <= from <= s.len(),
    ensures
        ({
            let n = paint::run(s, c, from);
            &&& 0 <= n && from + n <= s.len()
            &&& forall|i: int| from <= i < from + n ==> #[trigger] s[i] == c
            &&& from + n < s.len() ==> s[from + n] != c
        }),
    decreases s.len() - from,
{
    if from < s.len() && s[from] == c {
        how_long_a_run_is(s, c, from + 1);
    }
}

/// The same of digits.
pub proof fn how_long_a_number_is(s: Seq<char>, from: int)
    requires
        0 <= from <= s.len(),
    ensures
        ({
            let n = paint::digit_run(s, from);
            &&& 0 <= n && from + n <= s.len()
            &&& forall|i: int| from <= i < from + n ==> '0' <= #[trigger] s[i] <= '9'
            &&& from + n < s.len() ==> !('0' <= s[from + n] <= '9')
        }),
    decreases s.len() - from,
{
    if from < s.len() && '0' <= s[from] <= '9' {
        how_long_a_number_is(s, from + 1);
    }
}

/// A run of a letter of a known length.
proof fn lemma_run(s: Seq<char>, c: char, from: int, n: int)
    requires
        0 <= from,
        0 <= n,
        from + n <= s.len(),
        forall|i: int| from <= i < from + n ==> #[trigger] s[i] == c,
        from + n < s.len() ==> s[from + n] != c,
    ensures
        paint::run(s, c, from) == n,
    decreases n,
{
    if n > 0 {
        lemma_run(s, c, from + 1, n - 1);
    }
}

/// A fence is at most three blanks and then at least three backticks or tildes; what follows is its
/// word. A fence of backticks has none in its word.
pub proof fn which_lines_are_fences(line: Seq<char>, i: int, c: char, n: int)
    requires
        0 <= i,
        1 <= n,
        i + n <= line.len(),
        forall|k: int| 0 <= k < i ==> #[trigger] line[k] == ' ',
        forall|k: int| i <= k < i + n ==> #[trigger] line[k] == c,
        i + n < line.len() ==> line[i + n] != c,
        c != ' ',
    ensures
        ({
            let word = text::trim(line.subrange(i + n, line.len() as int));
            let fence = i <= 3 && n >= 3 && (c == '~' || (c == '`' && !word.contains('`')));
            &&& fence ==> paint::fence_of(line) == Some(Mark { ch: c, len: n, info: word })
            &&& !fence ==> paint::fence_of(line) is None
        }),
{
    assert(line[i] == c);
    lemma_run(line, ' ', 0, i);
    lemma_run(line, c, i, n);
}

/// A heading is one to six number signs, with a blank or nothing behind them.
pub proof fn which_lines_are_headings(line: Seq<char>, n: int)
    requires
        0 <= n <= line.len(),
        forall|k: int| 0 <= k < n ==> #[trigger] line[k] == '#',
        n < line.len() ==> line[n] != '#',
    ensures
        paint::heading(line) <==> 1 <= n <= 6 && (n == line.len() || line[n] == ' ' || line[n]
            == '\t'),
{
    lemma_run(line, '#', 0, n);
}

/// Four words at the beginning of a line stand out: those that name a task, its sender, its
/// recipient and its directory, with a blank or nothing behind them.
pub proof fn which_words_stand_out(rest: Seq<char>)
    requires
        rest.len() == 0 || rest[0] == ' ' || rest[0] == '\t',
    ensures
        paint::meta_key("task-id:"@ + rest) == Some(8int),
        paint::meta_key("from:"@ + rest) == Some(5int),
        paint::meta_key("to:"@ + rest) == Some(3int),
        paint::meta_key("working_directory:"@ + rest) == Some(18int),
{
    reveal_strlit("task-id:");
    reveal_strlit("from:");
    reveal_strlit("to:");
    reveal_strlit("working_directory:");
    lemma_keyed("task-id:"@, rest);
    lemma_keyed("from:"@, rest);
    lemma_keyed("to:"@, rest);
    lemma_keyed("working_directory:"@, rest);
    let a = "from:"@ + rest;
    assert(a[0] == 'f');
    lemma_not_starts(a, "task-id:"@);
    let b = "to:"@ + rest;
    assert(b[0] == 't' && b[1] == 'o');
    lemma_not_starts_second(b, "task-id:"@);
    lemma_not_starts(b, "from:"@);
    let c = "working_directory:"@ + rest;
    assert(c[0] == 'w');
    lemma_not_starts(c, "task-id:"@);
    lemma_not_starts(c, "from:"@);
    lemma_not_starts(c, "to:"@);
}

/// A line that begins with a word.
proof fn lemma_keyed(key: Seq<char>, rest: Seq<char>)
    requires
        rest.len() == 0 || rest[0] == ' ' || rest[0] == '\t',
    ensures
        paint::keyed_by(key + rest, key),
{
    let s = key + rest;
    assert(s.subrange(0, key.len() as int) =~= key);
    if rest.len() > 0 {
        assert(s[key.len() as int] == rest[0]);
    }
}

/// A line that begins with another letter.
proof fn lemma_not_starts(s: Seq<char>, key: Seq<char>)
    requires
        s.len() > 0,
        key.len() > 0,
        s[0] != key[0],
    ensures
        !text::starts(s, key),
{
    if text::starts(s, key) {
        assert(s.subrange(0, key.len() as int)[0] == s[0]);
    }
}

/// A line whose second letter is another one.
proof fn lemma_not_starts_second(s: Seq<char>, key: Seq<char>)
    requires
        s.len() > 1,
        key.len() > 1,
        s[1] != key[1],
    ensures
        !text::starts(s, key),
{
    if text::starts(s, key) {
        assert(s.subrange(0, key.len() as int)[1] == s[1]);
    }
}

/// A list item is any blanks, a dash, a star, a plus, or a number with a dot or a bracket, and a
/// blank.
pub proof fn which_lines_are_list_items(line: Seq<char>, i: int)
    requires
        0 <= i < line.len(),
        forall|k: int| 0 <= k < i ==> #[trigger] line[k] == ' ',
        line[i] != ' ',
    ensures
        (line[i] == '-' || line[i] == '*' || line[i] == '+') ==> (if i + 1 < line.len() && line[i + 1]
            == ' ' {
            paint::list_mark(line) == Some((i, i + 1))
        } else {
            paint::list_mark(line) is None
        }),
        ({
            let d = paint::digit_run(line, i);
            '0' <= line[i] <= '9' ==> (if i + d + 1 < line.len() && (line[i + d] == '.' || line[i
                + d] == ')') && line[i + d + 1] == ' ' {
                paint::list_mark(line) == Some((i, i + d + 1))
            } else {
                paint::list_mark(line) is None
            })
        }),
        !('0' <= line[i] <= '9') && line[i] != '-' && line[i] != '*' && line[i] != '+'
            ==> paint::list_mark(line) is None,
{
    lemma_run(line, ' ', 0, i);
    how_long_a_number_is(line, i);
}

/// A whole line in one style.
pub open spec fn whole(line: Seq<char>, fg: Option<Color>, bold: bool) -> Seq<SpanView> {
    seq![SpanView { text: line, style: Style { fg, bg: None, bold, reset: false } }]
}

/// Outside a fence: the line of a fence is coloured as code, a heading stands out, of a line with a
/// word that stands out only the word does, and of a list item only its mark; a plain line has no
/// colour.
pub proof fn how_a_line_outside_a_fence_looks(p: Palette, in_diff: bool, line: Seq<char>)
    ensures
        ({
            let v = paint::look(p, Reading { fence: None, in_diff }, line);
            let fence = paint::fence_of(line) is Some;
            let head = paint::heading(line);
            let word = paint::meta_key(line);
            let item = paint::list_mark(line);
            &&& fence ==> v == whole(line, Some(p.md_code), false)
            &&& !fence && head ==> v == whole(line, Some(p.md_heading), true)
            &&& !fence && !head && word is Some && 0 < word->0 < line.len() ==> v == whole(
                line.subrange(0, word->0),
                Some(p.md_meta),
                true,
            ) + whole(line.subrange(word->0, line.len() as int), None, false)
            &&& !fence && !head && word is None && !in_diff && !paint::diff_header(line) && item
                is None ==> v == whole(line, None, false)
            &&& !fence && !head && word is None && !in_diff && !paint::diff_header(line) && item
                is Some && 0 < (item->0).0 < (item->0).1 < line.len() ==> v == whole(
                line.subrange(0, (item->0).0),
                None,
                false,
            ) + whole(line.subrange((item->0).0, (item->0).1), Some(p.md_list), false) + whole(
                line.subrange((item->0).1, line.len() as int),
                None,
                false,
            )
        }),
{
    let v = paint::look(p, Reading { fence: None, in_diff }, line);
    let word = paint::meta_key(line);
    if paint::fence_of(line) is None && !paint::heading(line) && word is Some && 0 < word->0
        < line.len() {
        assert(v =~= whole(line.subrange(0, word->0), Some(p.md_meta), true) + whole(
            line.subrange(word->0, line.len() as int),
            None,
            false,
        ));
    }
    let item = paint::list_mark(line);
    if paint::fence_of(line) is None && !paint::heading(line) && word is None && !in_diff
        && !paint::diff_header(line) && item is Some && 0 < (item->0).0 < (item->0).1 < line.len() {
        assert(v =~= whole(line.subrange(0, (item->0).0), None, false) + whole(
            line.subrange((item->0).0, (item->0).1),
            Some(p.md_list),
            false,
        ) + whole(line.subrange((item->0).1, line.len() as int), None, false));
    }
}

/// In a diff, what was added and what was taken away have their colours: outside a fence once a
/// header was met and while the lines go on as those of a diff do, and inside a fence that says so.
pub proof fn how_a_diff_looks(p: Palette, f: FenceView, rest: Seq<char>)
    ensures
        ({
            let plus = seq!['+'] + rest;
            let minus = seq!['-'] + rest;
            let open = Reading { fence: None, in_diff: true };
            let code = Reading { fence: Some(FenceView { diff: true, ..f }), in_diff: false };
            let other = Reading { fence: Some(FenceView { diff: false, ..f }), in_diff: false };
            &&& paint::look(p, open, plus) == whole(plus, Some(p.diff_add), false)
            &&& paint::look(p, open, minus) == whole(minus, Some(p.diff_del), false)
            &&& paint::look(p, code, plus) == whole(plus, Some(p.diff_add), false)
            &&& paint::look(p, code, minus) == whole(minus, Some(p.diff_del), false)
            &&& paint::look(p, other, plus) == whole(plus, Some(p.md_code), false)
            &&& paint::look(p, other, minus) == whole(minus, Some(p.md_code), false)
            &&& paint::next(open, plus) == open
            &&& paint::next(open, minus) == open
            &&& paint::next(code, plus) == code
            &&& paint::next(other, minus) == other
        }),
{
    let plus = seq!['+'] + rest;
    let minus = seq!['-'] + rest;
    assert(plus[0] == '+' && minus[0] == '-');
    lemma_plain_start(plus);
    lemma_plain_start(minus);
}

/// A line that begins with a plus or a dash is neither a fence nor a heading, and has no word that
/// stands out.
proof fn lemma_plain_start(line: Seq<char>)
    requires
        line.len() > 0,
        line[0] == '+' || line[0] == '-',
    ensures
        paint::fence_of(line) is None,
        !paint::heading(line),
        paint::meta_key(line) is None,
{
    reveal_strlit("task-id:");
    reveal_strlit("from:");
    reveal_strlit("to:");
    reveal_strlit("working_directory:");
    lemma_not_starts(line, "task-id:"@);
    lemma_not_starts(line, "from:"@);
    lemma_not_starts(line, "to:"@);
    lemma_not_starts(line, "working_directory:"@);
    lemma_run(line, ' ', 0, 0);
    lemma_run(line, '#', 0, 0);
}

/// A fence begins where its line stands and ends at a line of the same letter that is at least as
/// long and has no word; in between all is code. A heading ends it too.
pub proof fn where_a_fence_ends(p: Palette, f: FenceView, in_diff: bool, line: Seq<char>)
    ensures
        ({
            let st = Reading { fence: Some(f), in_diff };
            let m = paint::fence_of(line);
            let ends = m is Some && (m->0).ch == f.ch && (m->0).len >= f.len && (m->0).info.len()
                == 0;
            let breaks = !ends && (paint::heading(line) || paint::meta_key(line) is Some);
            &&& ends ==> paint::next(st, line) == (Reading { fence: None, in_diff })
            &&& ends ==> paint::look(p, st, line) == whole(line, Some(p.md_code), false)
            &&& !ends && !breaks ==> paint::next(st, line) == st
            &&& !ends && !breaks && !f.diff ==> paint::look(p, st, line) == whole(
                line,
                Some(p.md_code),
                false,
            )
            &&& breaks ==> paint::look(p, st, line) == paint::look(
                p,
                Reading { fence: None, in_diff },
                line,
            ) && paint::next(st, line) == paint::next(Reading { fence: None, in_diff }, line)
        }),
        paint::fence_of(line) matches Some(m) ==> paint::next(
            Reading { fence: None, in_diff },
            line,
        ) == (Reading {
            fence: Some(FenceView { ch: m.ch, len: m.len, diff: paint::says_diff(m.info) }),
            in_diff: false,
        }),
        paint::fence_of(line) is None && (paint::heading(line) || paint::meta_key(line) is Some)
            ==> paint::next(Reading { fence: None, in_diff }, line) == (Reading {
            fence: None,
            in_diff: false,
        }),
{
}

/// A page is read from the top, and each line is coloured by what stands above it.
pub proof fn how_a_page_is_coloured(p: Palette, lines: Seq<Seq<char>>, n: int)
    requires
        0 <= n < lines.len(),
    ensures
        paint::looks(p, lines).len() == lines.len(),
        paint::looks(p, lines)[n].spans == paint::look(p, paint::read_upto(lines, n), lines[n]),
        paint::read_upto(lines, 0) == (Reading { fence: None, in_diff: false }),
        paint::read_upto(lines, n + 1) == paint::next(paint::read_upto(lines, n), lines[n]),
{
}

/// A fence says that it holds a diff by that word, in either case.
pub proof fn which_fences_hold_a_diff(a: char, b: char, c: char, d: char)
    ensures
        paint::says_diff(seq![a, b, c, d]) <==> (a == 'd' || a == 'D') && (b == 'i' || b == 'I') && (c
            == 'f' || c == 'F') && (d == 'f' || d == 'F'),
{
}

/// A diff goes on while lines begin as those of a diff do, and a header begins one.
pub proof fn where_a_diff_goes_on(in_diff: bool, line: Seq<char>)
    requires
        paint::fence_of(line) is None,
        !paint::heading(line),
        paint::meta_key(line) is None,
    ensures
        text::starts(line, "diff --git"@) ==> paint::next(
            Reading { fence: None, in_diff },
            line,
        ).in_diff,
        line.len() > 0 && (line[0] == ' ' || line[0] == '+' || line[0] == '-' || line[0] == '@'
            || line[0] == '\\') && in_diff ==> paint::next(
            Reading { fence: None, in_diff },
            line,
        ).in_diff,
        line.len() == 0 && !text::starts(line, "diff --git"@) && !text::starts(line, "@@"@)
            ==> !paint::next(Reading { fence: None, in_diff }, line).in_diff,
        line.len() > 0 && line[0] != ' ' && line[0] != '+' && line[0] != '-' && line[0] != '@'
            && line[0] != '\\' && !text::starts(line, "diff --git"@) && !text::starts(
            line,
            "index "@,
        ) && !text::starts(line, "@@"@) ==> !paint::next(
            Reading { fence: None, in_diff },
            line,
        ).in_diff,
{
}

/// A diff begins at a line that says so, or at one with two signs for a place in a file.
pub proof fn which_lines_begin_a_diff(line: Seq<char>)
    ensures
        paint::diff_header(line) <==> text::starts(line, "diff --git"@) || (text::starts(line, "@@"@)
            && text::contains(line.subrange(2, line.len() as int), "@@"@)),
{
    reveal_strlit("@@");
}

/// A line that is nothing but a word that stands out stands out whole, and one that is a list item
/// without blanks before it begins with its mark.
pub proof fn how_the_ends_of_a_line_look(p: Palette, line: Seq<char>)
    requires
        paint::fence_of(line) is None,
        !paint::heading(line),
    ensures
        line.len() > 0 && paint::meta_key(line) == Some(line.len() as int) ==> paint::look(
            p,
            Reading { fence: None, in_diff: false },
            line,
        ) == whole(line.subrange(0, line.len() as int), Some(p.md_meta), true),
        paint::meta_key(line) is None && !paint::diff_header(line) && (paint::list_mark(line) matches
            Some((a, b)) && a == 0 && 0 < b < line.len()) ==> paint::look(
            p,
            Reading { fence: None, in_diff: false },
            line,
        ) == whole(line.subrange(0, (paint::list_mark(line)->0).1), Some(p.md_list), false) + whole(
            line.subrange((paint::list_mark(line)->0).1, line.len() as int),
            None,
            false,
        ),
{
    let v = paint::look(p, Reading { fence: None, in_diff: false }, line);
    if line.len() > 0 && paint::meta_key(line) == Some(line.len() as int) {
        assert(v =~= whole(line.subrange(0, line.len() as int), Some(p.md_meta), true));
    }
    if paint::meta_key(line) is None && !paint::diff_header(line) {
        if let Some((a, b)) = paint::list_mark(line) {
            if a == 0 && 0 < b < line.len() {
                assert(v =~= whole(line.subrange(0, b), Some(p.md_list), false) + whole(
                    line.subrange(b, line.len() as int),
                    None,
                    false,
                ));
            }
        }
    }
}

} // verus!
