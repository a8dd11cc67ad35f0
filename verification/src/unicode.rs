//! Character-level facts: which characters count as white space, and how many
//! bytes a character or a text occupies once encoded as UTF-8.
use vstd::prelude::*;

verus! {

/// White space in the sense of the Unicode `White_Space` property: the ASCII
/// controls tab through carriage return, the space, next-line, no-break space,
/// and the typographic spaces up to the ideographic space.
pub open spec fn is_space(c: char) -> bool {
    let v = c as u32;
    (0x09 <= v <= 0x0D) || v == 0x20 || v == 0x85 || v == 0xA0 || v == 0x1680 || (0x2000 <= v
        <= 0x200A) || v == 0x2028 || v == 0x2029 || v == 0x202F || v == 0x205F || v == 0x3000
}

/// Number of bytes of the UTF-8 encoding of `c`.
pub open spec fn utf8_width(c: char) -> nat {
    let v = c as u32;
    if v < 0x80 {
        1
    } else if v < 0x800 {
        2
    } else if v < 0x1_0000 {
        3
    } else {
        4
    }
}

/// Number of bytes of the UTF-8 encoding of `s`: the sum of the widths of its
/// characters.
pub open spec fn utf8_len(s: Seq<char>) -> nat
    decreases s.len(),
{
    if s.len() == 0 {
        0
    } else {
        utf8_len(s.drop_last()) + utf8_width(s.last())
    }
}

/// Every character occupies at least one byte, so a text has at least as many
/// bytes as characters, and a longer prefix has at least as many bytes.
pub proof fn lemma_utf8_len_bounds(s: Seq<char>, k: int)
    requires
        0 <= k <= s.len(),
    ensures
        k <= utf8_len(s.take(k)) <= utf8_len(s),
        utf8_len(s) - utf8_len(s.take(k)) >= s.len() - k,
    decreases s.len(),
{
    if k == s.len() {
        assert(s.take(k) =~= s);
        if s.len() > 0 {
            lemma_utf8_len_bounds(s.drop_last(), k - 1);
            assert(s.drop_last().take(k - 1) =~= s.drop_last());
        }
    } else {
        lemma_utf8_len_bounds(s.drop_last(), k);
        assert(s.drop_last().take(k) =~= s.take(k));
    }
}

/// Tells whether `c` is white space.
pub fn is_whitespace(c: char) -> (b: bool)
    ensures
        b == is_space(c),
{
    let v: u32 = c as u32;
    (0x09 <= v && v <= 0x0D) || v == 0x20 || v == 0x85 || v == 0xA0 || v == 0x1680 || (0x2000 <= v
        && v <= 0x200A) || v == 0x2028 || v == 0x2029 || v == 0x202F || v == 0x205F || v == 0x3000
}

/// The width in bytes of `c` in UTF-8.
pub fn width_of(c: char) -> (w: usize)
    ensures
        w == utf8_width(c),
        1 <= w <= 4,
{
    let v: u32 = c as u32;
    if v < 0x80 {
        1
    } else if v < 0x800 {
        2
    } else if v < 0x1_0000 {
        3
    } else {
        4
    }
}

/// Tells whether the UTF-8 encoding of `s` is longer than `limit` bytes.
pub fn exceeds(s: &Vec<char>, limit: usize) -> (b: bool)
    ensures
        b == (utf8_len(s@) > limit),
{
    let mut used: usize = 0;
    let mut i: usize = 0;
    while i < s.len()
        invariant
            i <= s.len(),
            used == utf8_len(s@.take(i as int)),
            used <= limit,
        decreases s.len() - i,
    {
        let w = width_of(s[i]);
        proof {
            assert(s@.take(i + 1).drop_last() =~= s@.take(i as int));
            lemma_utf8_len_bounds(s@, i + 1);
        }
        if w > limit - used {
            return true;
        }
        used = used + w;
        i += 1;
    }
    proof {
        assert(s@.take(i as int) =~= s@);
    }
    false
}

} // verus!
