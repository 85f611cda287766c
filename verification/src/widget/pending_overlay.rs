use vstd::prelude::*;

use crate::text::chars_of;
use vstd::string::StringExecFns;

verus! {

/// Whether `c` has the Unicode White_Space property (what `char::is_whitespace`
/// tests).
pub open spec fn is_white_space(c: char) -> bool {
    ('\u{9}' <= c <= '\u{d}') || c == ' ' || c == '\u{85}' || c == '\u{a0}' || c == '\u{1680}' || ('\u{2000}'
        <= c <= '\u{200a}') || c == '\u{2028}' || c == '\u{2029}' || c == '\u{202f}' || c == '\u{205f}' || c
        == '\u{3000}'
}

pub fn white_space(c: char) -> (r: bool)
    ensures
        r == is_white_space(c),
{
    ('\u{9}' <= c && c <= '\u{d}') || c == ' ' || c == '\u{85}' || c == '\u{a0}' || c == '\u{1680}' || ('\u{2000}'
        <= c && c <= '\u{200a}') || c == '\u{2028}' || c == '\u{2029}' || c == '\u{202f}' || c == '\u{205f}' || c
        == '\u{3000}'
}

/// The words of `s` (the runs between white space, as `str::split_whitespace`
/// yields them), with the word being read at the end.
pub open spec fn words_and_tail(s: Seq<char>) -> (Seq<Seq<char>>, Seq<char>)
    decreases s.len(),
{
    if s.len() == 0 {
        (Seq::empty(), Seq::empty())
    } else {
        let (ws, cur) = words_and_tail(s.drop_last());
        if is_white_space(s.last()) {
            if cur.len() > 0 {
                (ws.push(cur), Seq::empty())
            } else {
                (ws, cur)
            }
        } else {
            (ws, cur.push(s.last()))
        }
    }
}

/// The words of `s`.
pub open spec fn words(s: Seq<char>) -> Seq<Seq<char>> {
    let (ws, cur) = words_and_tail(s);
    if cur.len() > 0 {
        ws.push(cur)
    } else {
        ws
    }
}

/// The number of bytes of `c` in UTF-8.
pub open spec fn utf8_width(c: char) -> int {
    if (c as u32) < 0x80 {
        1
    } else if (c as u32) < 0x800 {
        2
    } else if (c as u32) < 0x10000 {
        3
    } else {
        4
    }
}

/// The width of a text in bytes of UTF-8, as `str::len` counts it.
pub open spec fn byte_width(s: Seq<char>) -> int
    decreases s.len(),
{
    if s.len() == 0 {
        0
    } else {
        byte_width(s.drop_last()) + utf8_width(s.last())
    }
}

/// The lines made by filling the first `n` words greedily: a word joins the
/// current line (after one space) while the line stays within `max_width`
/// bytes, else it starts a new line; a word longer than the width gets a
/// line of its own.
pub open spec fn fill_lines(ws: Seq<Seq<char>>, max_width: int, n: int) -> (Seq<Seq<char>>, Seq<char>)
    decreases n,
{
    if n <= 0 {
        (Seq::empty(), Seq::empty())
    } else {
        let (lines, cur) = fill_lines(ws, max_width, n - 1);
        let w = ws[n - 1];
        if cur.len() == 0 {
            (lines, w)
        } else if byte_width(cur) + 1 + byte_width(w) <= max_width {
            (lines, cur + seq![' '] + w)
        } else {
            (lines.push(cur), w)
        }
    }
}

/// The lines of `text` wrapped at `max_width` bytes: one empty line when
/// the text has no words.
pub open spec fn wrapped(text: Seq<char>, max_width: int) -> Seq<Seq<char>> {
    let ws = words(text);
    let (lines, cur) = fill_lines(ws, max_width, ws.len() as int);
    let all = if cur.len() > 0 {
        lines.push(cur)
    } else {
        lines
    };
    if all.len() == 0 {
        seq![Seq::empty()]
    } else {
        all
    }
}

/// Splits `text` into its words.
fn split_whitespace(text: &str) -> (ws: Vec<Vec<char>>)
    ensures
        ws@.len() == words(text@).len(),
        forall|i: int| 0 <= i < ws@.len() ==> (#[trigger] ws@[i])@ == words(text@)[i],
{
    let cs = chars_of(text);
    let mut ws: Vec<Vec<char>> = Vec::new();
    let mut cur: Vec<char> = Vec::new();
    let mut i: usize = 0;
    while i < cs.len()
        invariant
            i <= cs@.len(),
            cs@ == text@,
            ws@.len() == words_and_tail(cs@.take(i as int)).0.len(),
            forall|j: int| 0 <= j < ws@.len() ==> (#[trigger] ws@[j])@ == words_and_tail(cs@.take(i as int)).0[j],
            cur@ == words_and_tail(cs@.take(i as int)).1,
        decreases cs@.len() - i,
    {
        proof {
            assert(cs@.take(i + 1).drop_last() == cs@.take(i as int));
        }
        let c = cs[i];
        if white_space(c) {
            if cur.len() > 0 {
                ws.push(cur);
                cur = Vec::new();
            }
        } else {
            cur.push(c);
        }
        i += 1;
    }
    proof {
        assert(cs@.take(i as int) == cs@);
    }
    if cur.len() > 0 {
        ws.push(cur);
    }
    ws
}

/// The byte length of a text.
fn width_of(s: &String) -> (n: u128)
    ensures
        n == byte_width(s@),
        n <= 4 * (usize::MAX as int),
{
    let cs = chars_of(s.as_str());
    let mut n: u128 = 0;
    let mut i: usize = 0;
    while i < cs.len()
        invariant
            i <= cs@.len(),
            cs@ == s@,
            n == byte_width(cs@.take(i as int)),
            n <= 4 * i,
            i <= usize::MAX,
        decreases cs@.len() - i,
    {
        proof {
            assert(cs@.take(i + 1).drop_last() == cs@.take(i as int));
        }
        let c = cs[i] as u32;
        n = n + if c < 0x80 { 1 } else if c < 0x800 { 2 } else if c < 0x10000 { 3 } else { 4 };
        i += 1;
    }
    proof {
        assert(cs@.take(i as int) == cs@);
    }
    n
}

/// Wraps `text` into lines of at most `max_width` bytes, breaking between
/// words.
pub fn wrap_text(text: &str, max_width: usize) -> (lines: Vec<String>)
    ensures
        lines@.len() == wrapped(text@, max_width as int).len(),
        forall|i: int| 0 <= i < lines@.len() ==> (#[trigger] lines@[i])@ == wrapped(text@, max_width as int)[i],
{
    let ws = split_whitespace(text);
    let ghost wv = words(text@);
    let mut lines: Vec<String> = Vec::new();
    let mut current_line = String::new();
    let mut i: usize = 0;
    while i < ws.len()
        invariant
            i <= ws@.len(),
            ws@.len() == wv.len(),
            forall|j: int| 0 <= j < ws@.len() ==> (#[trigger] ws@[j])@ == wv[j],
            lines@.len() == fill_lines(wv, max_width as int, i as int).0.len(),
            forall|j: int| 0 <= j < lines@.len() ==> (#[trigger] lines@[j])@ == fill_lines(wv, max_width as int, i as int).0[j],
            current_line@ == fill_lines(wv, max_width as int, i as int).1,
        decreases ws@.len() - i,
    {
        let word = crate::text::string_from_chars(&ws[i]);
        if current_line.as_str().is_empty() {
            current_line = word;
        } else {
            let cw = width_of(&current_line);
            let ww = width_of(&word);
            if cw + 1 <= max_width as u128 && ww <= max_width as u128 - cw - 1 {
                current_line.append(" ");
                current_line.append(word.as_str());
                proof {
                    reveal_strlit(" ");
                }
            } else {
                lines.push(current_line);
                current_line = word;
            }
        }
        i += 1;
    }
    if !current_line.as_str().is_empty() {
        lines.push(current_line);
    }
    if lines.len() == 0 {
        lines.push(String::new());
    }
    lines
}

} // verus!
