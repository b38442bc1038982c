//! Text as sequences of characters: conversion between strings and
//! character buffers, line splitting, trimming and substring search.
//!
//! Every contract here speaks of `Seq<char>`, the view of a string.

use vstd::prelude::*;
use vstd::std_specs::iter::IteratorSpec;

verus! {

/// `String::push` of the standard library: it appends one character and
/// changes nothing else.
pub assume_specification[ String::push ](s: &mut String, c: char)
    ensures
        final(s)@ == old(s)@.push(c),
;

/// The characters of `s`, in order.
pub fn chars_of(s: &str) -> (v: Vec<char>)
    ensures
        v@ == s@,
{
    broadcast use vstd::string::group_string_axioms;

    let mut v: Vec<char> = Vec::new();
    for c in it: s.chars()
        invariant
            it.seq() == s@,
            v@ == it.seq().take(it.index() as int),
    {
        v.push(c);
    }
    v
}

/// The string made of `chars[from..to]`.
pub fn string_of(chars: &Vec<char>, from: usize, to: usize) -> (s: String)
    requires
        from <= to <= chars.len(),
    ensures
        s@ == chars@.subrange(from as int, to as int),
{
    let mut s = String::new();
    let mut i: usize = from;
    while i < to
        invariant
            from <= i <= to <= chars.len(),
            s@ == chars@.subrange(from as int, i as int),
        decreases to - i,
    {
        s.push(chars[i]);
        i += 1;
        assert(chars@.subrange(from as int, i as int) == chars@.subrange(
            from as int,
            i as int - 1,
        ).push(chars@[i as int - 1]));
    }
    s
}

/// What each buffer of `lines` holds, as plain sequences.
pub open spec fn views_of(lines: Seq<Vec<char>>) -> Seq<Seq<char>> {
    Seq::new(lines.len(), |i: int| lines[i]@)
}

/// What each string of `items` holds, as plain sequences.
pub open spec fn texts_of(items: Seq<String>) -> Seq<Seq<char>> {
    Seq::new(items.len(), |i: int| items[i]@)
}

/// The index of the first line feed in `s`, or `s.len()` when it has none.
pub open spec fn first_newline(s: Seq<char>) -> int
    decreases s.len(),
{
    if s.len() == 0 || s[0] == '\n' {
        0
    } else {
        1 + first_newline(s.drop_first())
    }
}

/// `first_newline` is the one index before which no line feed stands and at
/// which one stands, unless it is the end.
pub proof fn lemma_first_newline(s: Seq<char>, n: int)
    requires
        0 <= n <= s.len(),
        forall|j: int| 0 <= j < n ==> s[j] != '\n',
        n < s.len() ==> s[n] == '\n',
    ensures
        first_newline(s) == n,
    decreases s.len(),
{
    if s.len() == 0 || s[0] == '\n' {
    } else {
        let t = s.drop_first();
        assert forall|j: int| 0 <= j < n - 1 implies t[j] != '\n' by {
            assert(t[j] == s[j + 1]);
        }
        lemma_first_newline(t, n - 1);
    }
}

/// `line` without one carriage return at its end, if it has one there.
pub open spec fn without_cr(line: Seq<char>) -> Seq<char> {
    if line.len() > 0 && line.last() == '\r' {
        line.drop_last()
    } else {
        line
    }
}

/// The lines of `s`. A line ends at a line feed; a carriage return just
/// before that line feed is not part of the line. The last line needs no
/// line feed, and a text that ends in one has no empty line after it. A
/// carriage return that no line feed follows stays in its line.
pub open spec fn lines_of(s: Seq<char>) -> Seq<Seq<char>>
    decreases s.len(),
{
    let n = first_newline(s);
    if s.len() == 0 {
        Seq::empty()
    } else if 0 <= n < s.len() {
        seq![without_cr(s.take(n))] + lines_of(s.skip(n + 1))
    } else {
        seq![s]
    }
}

/// Splitting at `start` what is left of `s` adds the lines of the rest to
/// the lines before it.
proof fn lemma_lines_step(s: Seq<char>, n: int)
    requires
        0 <= n <= s.len(),
        s.len() > 0,
        forall|j: int| 0 <= j < n ==> s[j] != '\n',
        n < s.len() ==> s[n] == '\n',
    ensures
        n < s.len() ==> lines_of(s) == seq![without_cr(s.take(n))] + lines_of(s.skip(n + 1)),
        n == s.len() ==> lines_of(s) == seq![s],
{
    lemma_first_newline(s, n);
}

/// The lines of `text`, each as a buffer of its own.
pub fn lines(text: &str) -> (r: Vec<Vec<char>>)
    ensures
        views_of(r@) == lines_of(text@),
{
    let buf = chars_of(text);
    let mut r: Vec<Vec<char>> = Vec::new();
    let mut start: usize = 0;
    assert(buf@.skip(0) == buf@);
    assert(views_of(r@) + lines_of(buf@) == lines_of(buf@));
    while start < buf.len()
        invariant
            start <= buf.len(),
            lines_of(buf@) == views_of(r@) + lines_of(buf@.skip(start as int)),
        decreases buf.len() - start,
    {
        let ghost rest = buf@.skip(start as int);
        let ghost before = views_of(r@);
        let mut line: Vec<char> = Vec::new();
        let mut i: usize = start;
        while i < buf.len() && buf[i] != '\n'
            invariant
                start <= i <= buf.len(),
                line@ == buf@.subrange(start as int, i as int),
                forall|j: int| start <= j < i ==> buf@[j] != '\n',
            decreases buf.len() - i,
        {
            line.push(buf[i]);
            i += 1;
            assert(buf@.subrange(start as int, i as int) == buf@.subrange(
                start as int,
                i as int - 1,
            ).push(buf@[i as int - 1]));
        }
        proof {
            let n = i - start;
            assert forall|j: int| 0 <= j < n implies rest[j] != '\n' by {
                assert(rest[j] == buf@[start + j]);
            }
            lemma_lines_step(rest, n);
            assert(rest.take(n) == line@);
        }
        if i < buf.len() {
            assert(rest.skip(i - start + 1) == buf@.skip(i + 1));
            let n = line.len();
            if n > 0 && line[n - 1] == '\r' {
                line.pop();
            }
            assert(line@ == without_cr(rest.take(i - start)));
            r.push(line);
            start = i + 1;
            assert(views_of(r@) == before + seq![r@.last()@]);
        } else {
            r.push(line);
            start = i;
            assert(views_of(r@) == before + seq![r@.last()@]);
            assert(lines_of(buf@.skip(start as int)) == Seq::<Seq<char>>::empty());
        }
    }
    assert(lines_of(buf@.skip(start as int)) == Seq::<Seq<char>>::empty());
    r
}

/// Whether `c` is white space: the characters that Unicode gives the
/// property `White_Space`.
pub open spec fn is_whitespace(c: char) -> bool {
    ||| ('\u{9}' <= c && c <= '\u{d}')
    ||| c == ' '
    ||| c == '\u{85}'
    ||| c == '\u{a0}'
    ||| c == '\u{1680}'
    ||| ('\u{2000}' <= c && c <= '\u{200a}')
    ||| c == '\u{2028}'
    ||| c == '\u{2029}'
    ||| c == '\u{202f}'
    ||| c == '\u{205f}'
    ||| c == '\u{3000}'
}

/// Tests `is_whitespace`.
pub fn whitespace(c: char) -> (b: bool)
    ensures
        b == is_whitespace(c),
{
    ('\u{9}' <= c && c <= '\u{d}') || c == ' ' || c == '\u{85}' || c == '\u{a0}' || c
        == '\u{1680}' || ('\u{2000}' <= c && c <= '\u{200a}') || c == '\u{2028}' || c
        == '\u{2029}' || c == '\u{202f}' || c == '\u{205f}' || c == '\u{3000}'
}

/// Whether `needle` stands in `hay` at index `at`.
pub open spec fn occurs_at(hay: Seq<char>, needle: Seq<char>, at: int) -> bool {
    0 <= at && at + needle.len() <= hay.len() && hay.subrange(at, at + needle.len()) == needle
}

/// Whether `s` starts with `head`.
pub open spec fn starts_with(s: Seq<char>, head: Seq<char>) -> bool {
    occurs_at(s, head, 0)
}

/// Whether `needle` stands somewhere in `hay`.
pub open spec fn contains_text(hay: Seq<char>, needle: Seq<char>) -> bool {
    exists|at: int| occurs_at(hay, needle, at)
}

/// Tests `occurs_at`.
pub fn found_at(hay: &Vec<char>, needle: &Vec<char>, at: usize) -> (b: bool)
    ensures
        b == occurs_at(hay@, needle@, at as int),
{
    if needle.len() > hay.len() || at > hay.len() - needle.len() {
        return false;
    }
    let mut k: usize = 0;
    while k < needle.len()
        invariant
            k <= needle.len(),
            at + needle.len() <= hay.len(),
            forall|j: int| 0 <= j < k ==> hay@[at + j] == needle@[j],
        decreases needle.len() - k,
    {
        if hay[at + k] != needle[k] {
            assert(hay@.subrange(at as int, at + needle.len())[k as int] != needle@[k as int]);
            return false;
        }
        k += 1;
    }
    assert(hay@.subrange(at as int, at + needle.len()) =~= needle@);
    true
}

/// Tests `contains_text`.
pub fn found_in(hay: &Vec<char>, needle: &Vec<char>) -> (b: bool)
    ensures
        b == contains_text(hay@, needle@),
{
    if needle.len() > hay.len() {
        return false;
    }
    let last: usize = hay.len() - needle.len();
    let mut at: usize = 0;
    while at <= last
        invariant
            at <= last,
            last == hay.len() - needle.len(),
            forall|j: int| 0 <= j < at ==> !occurs_at(hay@, needle@, j),
        decreases last - at,
    {
        if found_at(hay, needle, at) {
            return true;
        }
        if at == last {
            return false;
        }
        at += 1;
    }
    false
}

/// Whether `s` ends with `tail`.
pub open spec fn ends_with(s: Seq<char>, tail: Seq<char>) -> bool {
    tail.len() <= s.len() && s.skip(s.len() - tail.len()) == tail
}

/// Tests `ends_with`.
pub fn has_ending(s: &Vec<char>, tail: &Vec<char>) -> (b: bool)
    ensures
        b == ends_with(s@, tail@),
{
    if tail.len() > s.len() {
        return false;
    }
    let at: usize = s.len() - tail.len();
    let b = found_at(s, tail, at);
    assert(s@.skip(at as int) == s@.subrange(at as int, at + tail.len()));
    b
}

/// The lines of `text`, each as a string of its own: see `lines_of`.
pub fn text_lines(text: &str) -> (r: Vec<String>)
    ensures
        texts_of(r@) == lines_of(text@),
{
    let all = lines(text);
    let mut r: Vec<String> = Vec::new();
    let mut i: usize = 0;
    while i < all.len()
        invariant
            i <= all.len(),
            r.len() == i,
            forall|j: int| 0 <= j < i ==> r@[j]@ == all@[j]@,
        decreases all.len() - i,
    {
        let line = &all[i];
        let s = string_of(line, 0, line.len());
        assert(line@.subrange(0, line.len() as int) == line@);
        r.push(s);
        i += 1;
    }
    assert(texts_of(r@) == views_of(all@));
    r
}

} // verus!
