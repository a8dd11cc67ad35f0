//! The source text: its characters, and the table that takes a byte offset of
//! its UTF-8 encoding to the character that starts there.
use crate::text::{chars_of, subvec};
use crate::unicode::{lemma_utf8_len_bounds, utf8_len, width_of};
use vstd::prelude::*;

verus! {

/// A range of the source, in byte offsets of its UTF-8 encoding: from `start`
/// up to, not including, `end`.
#[derive(Clone, Copy, Debug, PartialEq, Eq, Structural)]
pub struct Span {
    pub start: usize,
    pub end: usize,
}

/// Byte offset at which character `k` of `text` starts; for `k == text.len()`
/// the length of the encoding.
pub open spec fn byte_offset(text: Seq<char>, k: int) -> nat {
    utf8_len(text.take(k))
}

/// A byte offset is a boundary where a character starts there, or the text
/// ends there.
pub open spec fn is_boundary(text: Seq<char>, b: int) -> bool {
    exists|k: int| 0 <= k <= text.len() && #[trigger] byte_offset(text, k) == b
}

/// The index of the character that starts at the boundary `b`.
pub open spec fn char_index(text: Seq<char>, b: int) -> int {
    choose|k: int| 0 <= k <= text.len() && #[trigger] byte_offset(text, k) == b
}

/// A span addresses a piece of `text` when it runs forward between two
/// boundaries.
pub open spec fn span_ok(text: Seq<char>, span: Span) -> bool {
    span.start <= span.end && is_boundary(text, span.start as int) && is_boundary(
        text,
        span.end as int,
    )
}

/// The piece of `text` that `span` addresses; empty where it addresses none.
pub open spec fn span_text(text: Seq<char>, span: Span) -> Seq<char> {
    if span_ok(text, span) {
        text.subrange(char_index(text, span.start as int), char_index(text, span.end as int))
    } else {
        Seq::empty()
    }
}

/// Later characters start at later offsets.
pub proof fn lemma_byte_offset_increases(text: Seq<char>, i: int, j: int)
    requires
        0 <= i <= j <= text.len(),
    ensures
        byte_offset(text, j) - byte_offset(text, i) >= j - i,
        byte_offset(text, j) <= utf8_len(text),
{
    lemma_utf8_len_bounds(text.take(j), i);
    assert(text.take(j).take(i) =~= text.take(i));
    lemma_utf8_len_bounds(text, j);
}

/// A boundary is the offset of exactly one character index.
pub proof fn lemma_char_index_unique(text: Seq<char>, k: int)
    requires
        0 <= k <= text.len(),
    ensures
        is_boundary(text, byte_offset(text, k) as int),
        char_index(text, byte_offset(text, k) as int) == k,
{
    let b = byte_offset(text, k) as int;
    let c = char_index(text, b);
    assert(0 <= c <= text.len() && byte_offset(text, c) == b);
    if c < k {
        lemma_byte_offset_increases(text, c, k);
    } else if k < c {
        lemma_byte_offset_increases(text, k, c);
    }
}

/// A source text with the tables of its character boundaries: from a byte
/// offset to the character that starts there, and from a character to the
/// byte offset at which it starts.
pub struct SourceText {
    chars: Vec<char>,
    starts: Vec<Option<usize>>,
    offsets: Vec<usize>,
}

impl View for SourceText {
    type V = Seq<char>;

    closed spec fn view(&self) -> Seq<char> {
        self.chars@
    }
}

impl SourceText {
    #[verifier::type_invariant]
    closed spec fn tables_match(&self) -> bool {
        &&& self.starts@.len() == utf8_len(self.chars@) + 1
        &&& forall|b: int|
            0 <= b < self.starts@.len() ==> match #[trigger] self.starts@[b] {
                Some(k) => 0 <= k <= self.chars@.len() && byte_offset(self.chars@, k as int) == b,
                None => !is_boundary(self.chars@, b),
            }
        &&& self.offsets@.len() == self.chars@.len() + 1
        &&& forall|k: int|
            0 <= k < self.offsets@.len() ==> #[trigger] self.offsets@[k] == byte_offset(
                self.chars@,
                k,
            )
    }

    /// Reads `input` and lays out the tables of its boundaries.
    pub fn new(input: &str) -> (source: SourceText)
        ensures
            source@ == input@,
    {
        let chars = chars_of(input);
        let mut starts: Vec<Option<usize>> = Vec::new();
        let mut offsets: Vec<usize> = Vec::new();
        let mut i: usize = 0;
        while i < chars.len()
            invariant
                i <= chars.len(),
                starts@.len() == byte_offset(chars@, i as int),
                forall|b: int|
                    0 <= b < starts@.len() ==> match #[trigger] starts@[b] {
                        Some(k) => 0 <= k <= chars@.len() && byte_offset(chars@, k as int) == b,
                        None => !is_boundary(chars@, b),
                    },
                offsets@.len() == i,
                forall|k: int|
                    0 <= k < offsets@.len() ==> #[trigger] offsets@[k] == byte_offset(chars@, k),
            decreases chars.len() - i,
        {
            let w = width_of(chars[i]);
            let ghost lo = byte_offset(chars@, i as int) as int;
            proof {
                assert(chars@.take(i + 1).drop_last() =~= chars@.take(i as int));
                assert(byte_offset(chars@, i + 1) == lo + w);
            }
            offsets.push(starts.len());
            starts.push(Some(i));
            let mut j: usize = 1;
            while j < w
                invariant
                    1 <= j <= w,
                    i < chars.len(),
                    lo == byte_offset(chars@, i as int),
                    byte_offset(chars@, i + 1) == lo + w,
                    starts@.len() == lo + j,
                    forall|b: int|
                        0 <= b < starts@.len() ==> match #[trigger] starts@[b] {
                            Some(k) => 0 <= k <= chars@.len() && byte_offset(chars@, k as int)
                                == b,
                            None => !is_boundary(chars@, b),
                        },
                decreases w - j,
            {
                proof {
                    let b = lo + j;
                    assert forall|k: int| 0 <= k <= chars@.len() implies #[trigger] byte_offset(
                        chars@,
                        k,
                    ) != b by {
                        if k <= i {
                            lemma_byte_offset_increases(chars@, k, i as int);
                        } else {
                            lemma_byte_offset_increases(chars@, i + 1, k);
                        }
                    }
                }
                starts.push(None);
                j += 1;
            }
            i += 1;
        }
        offsets.push(starts.len());
        starts.push(Some(i));
        proof {
            assert(chars@.take(i as int) =~= chars@);
        }
        SourceText { chars, starts, offsets }
    }

    /// Number of characters of the text.
    pub fn len(&self) -> (n: usize)
        ensures
            n == self@.len(),
    {
        self.chars.len()
    }

    /// Character `k` of the text.
    pub fn char_at(&self, k: usize) -> (c: char)
        requires
            k < self@.len(),
        ensures
            c == self@[k as int],
    {
        self.chars[k]
    }

    /// Byte offset at which character `k` starts.
    pub fn offset_of(&self, k: usize) -> (b: usize)
        requires
            k <= self@.len(),
        ensures
            b == byte_offset(self@, k as int),
    {
        proof {
            use_type_invariant(self);
        }
        self.offsets[k]
    }

    /// The characters that `span` addresses, as a range of character indices;
    /// `None` where it addresses no piece of the text.
    pub fn char_range(&self, span: Span) -> (range: Option<(usize, usize)>)
        ensures
            range is Some == span_ok(self@, span),
            range matches Some((a, b)) ==> a == char_index(self@, span.start as int) && b
                == char_index(self@, span.end as int) && a <= b <= self@.len(),
    {
        proof {
            use_type_invariant(self);
        }
        if span.start <= span.end && span.end < self.starts.len() {
            match (self.starts[span.start], self.starts[span.end]) {
                (Some(a), Some(b)) => {
                    proof {
                        lemma_char_index_unique(self.chars@, a as int);
                        lemma_char_index_unique(self.chars@, b as int);
                        if b < a {
                            lemma_byte_offset_increases(self.chars@, b as int, a as int);
                        }
                    }
                    Some((a, b))
                },
                _ => None,
            }
        } else {
            proof {
                if span.start <= span.end && is_boundary(self.chars@, span.end as int) {
                    let k = char_index(self.chars@, span.end as int);
                    lemma_byte_offset_increases(self.chars@, k, self.chars@.len() as int);
                }
            }
            None
        }
    }

    /// Copies the piece of the text that `span` addresses; nothing where it
    /// addresses none.
    pub fn slice(&self, span: Span) -> (out: Vec<char>)
        ensures
            out@ == span_text(self@, span),
    {
        match self.char_range(span) {
            Some((a, b)) => subvec(&self.chars, a, b),
            None => Vec::new(),
        }
    }
}

} // verus!
