//! Operations on texts held as sequences of characters: conversion from and to
//! strings, concatenation, trimming, and the tests on prefixes, suffixes and
//! line structure that layout decisions are made of.
use crate::unicode::{is_space, is_whitespace};
use vstd::prelude::*;

verus! {

/// `s` without its leading white space.
pub open spec fn trim_start(s: Seq<char>) -> Seq<char>
    decreases s.len(),
{
    if s.len() > 0 && is_space(s[0]) {
        trim_start(s.drop_first())
    } else {
        s
    }
}

/// `s` without its trailing white space.
pub open spec fn trim_end(s: Seq<char>) -> Seq<char>
    decreases s.len(),
{
    if s.len() > 0 && is_space(s.last()) {
        trim_end(s.drop_last())
    } else {
        s
    }
}

/// `s` without its leading and trailing white space.
pub open spec fn trim(s: Seq<char>) -> Seq<char> {
    trim_end(trim_start(s))
}

/// A text is blank when nothing is left of it after trimming.
pub open spec fn is_blank(s: Seq<char>) -> bool {
    trim(s).len() == 0
}

/// Index of the last line feed of `s`, or -1 where it has none.
pub open spec fn last_newline(s: Seq<char>) -> int
    decreases s.len(),
{
    if s.len() == 0 {
        -1
    } else if s.last() == '\n' {
        s.len() - 1
    } else {
        last_newline(s.drop_last())
    }
}

/// The white space that `s` ends with.
pub open spec fn trailing_space(s: Seq<char>) -> Seq<char> {
    s.skip(trim_end(s).len() as int)
}

/// Joins the trimmed, non-empty lines of `s` with `sep`.
pub open spec fn reflow(s: Seq<char>, sep: Seq<char>) -> Seq<char>
    decreases s.len(),
{
    let cut = last_newline(s);
    if cut < 0 || cut >= s.len() {
        trim(s)
    } else {
        let before = reflow(s.take(cut), sep);
        let line = trim(s.skip(cut + 1));
        if line.len() == 0 {
            before
        } else if before.len() == 0 {
            line
        } else {
            before + sep + line
        }
    }
}

/// `last_newline` is the position of a line feed that no line feed follows.
pub proof fn lemma_last_newline(s: Seq<char>)
    ensures
        -1 <= last_newline(s) < s.len(),
        last_newline(s) >= 0 ==> s[last_newline(s)] == '\n',
        forall|j: int| last_newline(s) < j < s.len() ==> s[j] != '\n',
    decreases s.len(),
{
    if s.len() > 0 && s.last() != '\n' {
        let t = s.drop_last();
        lemma_last_newline(t);
        assert forall|j: int| last_newline(s) < j < s.len() implies s[j] != '\n' by {
            if j < t.len() {
                assert(s[j] == t[j]);
            }
        }
    }
}

/// A line feed at `k` that no line feed follows is the last one.
pub proof fn lemma_last_newline_is(s: Seq<char>, k: int)
    requires
        -1 <= k < s.len(),
        k >= 0 ==> s[k] == '\n',
        forall|j: int| k < j < s.len() ==> s[j] != '\n',
    ensures
        last_newline(s) == k,
{
    lemma_last_newline(s);
}

/// What trimming at the front leaves is a suffix that does not open with white
/// space, and all that was dropped is white space.
pub proof fn lemma_trim_start(s: Seq<char>)
    ensures
        trim_start(s).len() <= s.len(),
        trim_start(s) == s.skip(s.len() - trim_start(s).len()),
        trim_start(s).len() > 0 ==> !is_space(trim_start(s)[0]),
        forall|j: int| 0 <= j < s.len() - trim_start(s).len() ==> is_space(s[j]),
    decreases s.len(),
{
    if s.len() > 0 && is_space(s[0]) {
        let t = s.drop_first();
        lemma_trim_start(t);
        assert(t.skip(t.len() - trim_start(t).len()) =~= s.skip(s.len() - trim_start(s).len()));
        assert forall|j: int| 0 <= j < s.len() - trim_start(s).len() implies is_space(s[j]) by {
            if j > 0 {
                assert(s[j] == t[j - 1]);
            }
        }
    } else {
        assert(s.skip(0) =~= s);
    }
}

/// What trimming at the back leaves is a prefix that does not close with white
/// space, and all that was dropped is white space.
pub proof fn lemma_trim_end(s: Seq<char>)
    ensures
        trim_end(s).len() <= s.len(),
        trim_end(s) == s.take(trim_end(s).len() as int),
        trim_end(s).len() > 0 ==> !is_space(trim_end(s).last()),
        forall|j: int| trim_end(s).len() <= j < s.len() ==> is_space(s[j]),
    decreases s.len(),
{
    if s.len() > 0 && is_space(s.last()) {
        let t = s.drop_last();
        lemma_trim_end(t);
        assert(t.take(trim_end(t).len() as int) =~= s.take(trim_end(s).len() as int));
        assert forall|j: int| trim_end(s).len() <= j < s.len() implies is_space(s[j]) by {
            if j < t.len() {
                assert(s[j] == t[j]);
            }
        }
    } else {
        assert(s.take(s.len() as int) =~= s);
    }
}

/// Copies the characters of a string.
pub fn chars_of(s: &str) -> (out: Vec<char>)
    ensures
        out@ == s@,
{
    broadcast use vstd::string::group_string_axioms;

    let mut out: Vec<char> = Vec::new();
    for c in it: s.chars()
        invariant
            it.seq() == s@,
            out@ == s@.take(it.index()),
    {
        out.push(c);
    }
    out
}

/// `String::push` of the standard library: afterwards the string holds what
/// it held before, followed by `ch`.
pub assume_specification[ String::push ](s: &mut String, ch: char)
    ensures
        final(s)@ == old(s)@.push(ch),
;

/// Builds the string that holds the characters of `v`.
pub fn string_of(v: &Vec<char>) -> (out: String)
    ensures
        out@ == v@,
{
    let mut out = String::new();
    let mut i: usize = 0;
    while i < v.len()
        invariant
            i <= v.len(),
            out@ == v@.take(i as int),
        decreases v.len() - i,
    {
        out.push(v[i]);
        i += 1;
    }
    out
}

/// Copies the characters of `s` from index `from` up to, not including, `to`.
pub fn subvec(s: &Vec<char>, from: usize, to: usize) -> (out: Vec<char>)
    requires
        from <= to <= s.len(),
    ensures
        out@ == s@.subrange(from as int, to as int),
{
    let mut out: Vec<char> = Vec::new();
    let mut i: usize = from;
    while i < to
        invariant
            from <= i <= to <= s.len(),
            out@ == s@.subrange(from as int, i as int),
        decreases to - i,
    {
        out.push(s[i]);
        i += 1;
    }
    out
}

/// Appends the characters of `s` to `acc`.
pub fn append(acc: &mut Vec<char>, s: &Vec<char>)
    ensures
        final(acc)@ == old(acc)@ + s@,
{
    let mut i: usize = 0;
    while i < s.len()
        invariant
            i <= s.len(),
            acc@ == old(acc)@ + s@.take(i as int),
        decreases s.len() - i,
    {
        acc.push(s[i]);
        i += 1;
    }
}

/// Appends the characters of the string `s` to `acc`.
pub fn append_str(acc: &mut Vec<char>, s: &str)
    ensures
        final(acc)@ == old(acc)@ + s@,
{
    let chars = chars_of(s);
    append(acc, &chars);
}

/// Tells whether `c` occurs in `s`.
pub fn has_char(s: &Vec<char>, c: char) -> (b: bool)
    ensures
        b == s@.contains(c),
{
    let mut i: usize = 0;
    while i < s.len()
        invariant
            i <= s.len(),
            forall|j: int| 0 <= j < i ==> s@[j] != c,
        decreases s.len() - i,
    {
        if s[i] == c {
            return true;
        }
        i += 1;
    }
    false
}

/// Tells whether `s` opens with the text `p`.
pub fn has_prefix(s: &Vec<char>, p: &str) -> (b: bool)
    ensures
        b == p@.is_prefix_of(s@),
{
    let pat = chars_of(p);
    if pat.len() > s.len() {
        return false;
    }
    let mut i: usize = 0;
    while i < pat.len()
        invariant
            i <= pat.len() <= s.len(),
            forall|j: int| 0 <= j < i ==> s@[j] == pat@[j],
            pat@ == p@,
        decreases pat.len() - i,
    {
        if s[i] != pat[i] {
            assert(s@.subrange(0, pat@.len() as int)[i as int] != pat@[i as int]);
            return false;
        }
        i += 1;
    }
    assert(pat@ =~= s@.subrange(0, pat@.len() as int));
    true
}

/// Tells whether `s` closes with the text `p`.
pub fn has_suffix(s: &Vec<char>, p: &str) -> (b: bool)
    ensures
        b == p@.is_suffix_of(s@),
{
    let pat = chars_of(p);
    if pat.len() > s.len() {
        return false;
    }
    let base: usize = s.len() - pat.len();
    let mut i: usize = 0;
    while i < pat.len()
        invariant
            i <= pat.len() <= s.len(),
            base == s.len() - pat.len(),
            forall|j: int| 0 <= j < i ==> s@[base + j] == pat@[j],
            pat@ == p@,
        decreases pat.len() - i,
    {
        if s[base + i] != pat[i] {
            assert(s@.subrange(base as int, s@.len() as int)[i as int] != pat@[i as int]);
            return false;
        }
        i += 1;
    }
    assert(pat@ =~= s@.subrange(base as int, s@.len() as int));
    true
}

/// Tells whether `s` is exactly the text `p`.
pub fn same_text(s: &Vec<char>, p: &str) -> (b: bool)
    ensures
        b == (s@ == p@),
{
    let pat = chars_of(p);
    if pat.len() != s.len() {
        return false;
    }
    let mut i: usize = 0;
    while i < pat.len()
        invariant
            i <= pat.len() == s.len(),
            forall|j: int| 0 <= j < i ==> s@[j] == pat@[j],
            pat@ == p@,
        decreases pat.len() - i,
    {
        if s[i] != pat[i] {
            return false;
        }
        i += 1;
    }
    assert(pat@ =~= s@);
    true
}

/// Number of leading characters of `s` that are white space.
fn leading_space_count(s: &Vec<char>) -> (n: usize)
    ensures
        n <= s.len(),
        trim_start(s@) == s@.skip(n as int),
{
    let mut i: usize = 0;
    assert(s@.skip(0) =~= s@);
    while i < s.len() && is_whitespace(s[i])
        invariant
            i <= s.len(),
            trim_start(s@) == trim_start(s@.skip(i as int)),
        decreases s.len() - i,
    {
        assert(s@.skip(i as int).drop_first() =~= s@.skip(i + 1));
        i += 1;
    }
    i
}

/// Number of characters of `s` up to the last one that is not white space.
fn kept_length(s: &Vec<char>) -> (n: usize)
    ensures
        n <= s.len(),
        trim_end(s@) == s@.take(n as int),
{
    let mut n: usize = s.len();
    assert(s@.take(n as int) =~= s@);
    while n > 0 && is_whitespace(s[n - 1])
        invariant
            n <= s.len(),
            trim_end(s@) == trim_end(s@.take(n as int)),
        decreases n,
    {
        assert(s@.take(n as int).drop_last() =~= s@.take(n - 1));
        n -= 1;
    }
    n
}

/// Copies `s` without its leading white space.
pub fn trim_start_of(s: &Vec<char>) -> (out: Vec<char>)
    ensures
        out@ == trim_start(s@),
{
    let n = leading_space_count(s);
    subvec(s, n, s.len())
}

/// Copies `s` without its trailing white space.
pub fn trim_end_of(s: &Vec<char>) -> (out: Vec<char>)
    ensures
        out@ == trim_end(s@),
{
    let n = kept_length(s);
    subvec(s, 0, n)
}

/// Copies `s` without its leading and trailing white space.
pub fn trim_of(s: &Vec<char>) -> (out: Vec<char>)
    ensures
        out@ == trim(s@),
{
    let front = trim_start_of(s);
    trim_end_of(&front)
}

/// Tells whether `s` holds nothing but white space.
pub fn blank(s: &Vec<char>) -> (b: bool)
    ensures
        b == is_blank(s@),
{
    let n = leading_space_count(s);
    proof {
        let rest = s@.skip(n as int);
        if rest.len() > 0 {
            lemma_trim_start(s@);
            lemma_trim_end(rest);
            assert(!is_space(rest[0]));
            if trim_end(rest).len() == 0 {
                assert(is_space(rest[0]));
            }
        }
    }
    n == s.len()
}

/// Tells whether the white space that `s` ends with holds a line feed.
pub fn trailing_space_breaks(s: &Vec<char>) -> (b: bool)
    ensures
        b == trailing_space(s@).contains('\n'),
{
    let n = kept_length(s);
    proof {
        lemma_trim_end(s@);
        assert(trim_end(s@).len() == n);
    }
    let mut i: usize = n;
    while i < s.len()
        invariant
            n <= i <= s.len(),
            trim_end(s@).len() == n,
            forall|j: int| n <= j < i ==> s@[j] != '\n',
        decreases s.len() - i,
    {
        if s[i] == '\n' {
            assert(s@.skip(n as int)[i - n] == '\n');
            return true;
        }
        i += 1;
    }
    assert forall|k: int| 0 <= k < s@.skip(n as int).len() implies s@.skip(n as int)[k] != '\n' by {
        assert(s@.skip(n as int)[k] == s@[n + k]);
    }
    false
}

/// Joins the trimmed, non-empty lines of `s` with `sep`.
pub fn reflow_of(s: &Vec<char>, sep: &Vec<char>) -> (out: Vec<char>)
    ensures
        out@ == reflow(s@, sep@),
{
    let n = s.len();
    let mut acc: Vec<char> = Vec::new();
    let mut start: usize = 0;
    let mut i: usize = 0;
    while i < n
        invariant
            n == s.len(),
            start <= i <= n,
            forall|k: int| start <= k < i ==> s@[k] != '\n',
            start == 0 ==> acc@.len() == 0,
            start > 0 ==> s@[start - 1] == '\n' && acc@ == reflow(s@.take(start - 1), sep@),
        decreases n - i,
    {
        if s[i] == '\n' {
            let piece = subvec(s, start, i);
            let line = trim_of(&piece);
            proof {
                let head = s@.take(i as int);
                lemma_last_newline_is(head, start - 1);
                if start > 0 {
                    assert(head.take(start - 1) =~= s@.take(start - 1));
                    assert(head.skip(start as int) =~= piece@);
                } else {
                    assert(head =~= piece@);
                }
            }
            if line.len() > 0 {
                if acc.len() > 0 {
                    append(&mut acc, sep);
                }
                append(&mut acc, &line);
            }
            start = i + 1;
        }
        i += 1;
    }
    let piece = subvec(s, start, n);
    let line = trim_of(&piece);
    proof {
        lemma_last_newline_is(s@, start - 1);
        if start > 0 {
            assert(s@.skip(start as int) =~= piece@);
        } else {
            assert(s@ =~= piece@);
        }
    }
    if line.len() > 0 {
        if acc.len() > 0 {
            append(&mut acc, sep);
        }
        append(&mut acc, &line);
    }
    acc
}

} // verus!
