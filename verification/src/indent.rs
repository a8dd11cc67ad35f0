//! Indentation: a pure function from nesting depth to leading white space.
use crate::text::{append, string_of};
use vstd::prelude::*;

verus! {

/// A run of `n` spaces.
pub open spec fn spaces(n: nat) -> Seq<char> {
    Seq::new(n, |i: int| ' ')
}

/// The white space that opens a line at nesting `depth` when each level is
/// `width` spaces wide: one run of `width` spaces per level.
pub open spec fn indent_text(width: nat, depth: nat) -> Seq<char>
    decreases depth,
{
    if depth == 0 {
        Seq::empty()
    } else {
        indent_text(width, (depth - 1) as nat) + spaces(width)
    }
}

/// A line break followed by the indentation of `depth`.
pub open spec fn newline_at(width: nat, depth: nat) -> Seq<char> {
    seq!['\n'] + indent_text(width, depth)
}

/// Indentation holds `width * depth` characters, each of them a space.
pub proof fn lemma_indent_text(width: nat, depth: nat)
    ensures
        indent_text(width, depth).len() == width * depth,
        forall|i: int| 0 <= i < indent_text(width, depth).len() ==> indent_text(width, depth)[i] == ' ',
    decreases depth,
{
    if depth > 0 {
        lemma_indent_text(width, (depth - 1) as nat);
        assert(width * depth == width * (depth - 1) + width) by (nonlinear_arith);
    } else {
        assert(width * depth == 0) by (nonlinear_arith)
            requires
                depth == 0,
        ;
    }
}

/// A run of `n` spaces.
pub fn spaces_of(n: usize) -> (out: Vec<char>)
    ensures
        out@ == spaces(n as nat),
{
    let mut out: Vec<char> = Vec::new();
    let mut i: usize = 0;
    while i < n
        invariant
            i <= n,
            out@ == spaces(i as nat),
        decreases n - i,
    {
        out.push(' ');
        i += 1;
        assert(out@ =~= spaces(i as nat));
    }
    out
}

/// The indentation one level deeper than `indent`.
pub fn deeper(indent: &Vec<char>, width: usize, Ghost(depth): Ghost<nat>) -> (out: Vec<char>)
    requires
        indent@ == indent_text(width as nat, depth),
    ensures
        out@ == indent_text(width as nat, depth + 1),
{
    let mut out = indent.clone();
    let step = spaces_of(width);
    append(&mut out, &step);
    out
}

/// A line break followed by `indent`.
pub fn newline_with(indent: &Vec<char>) -> (out: Vec<char>)
    ensures
        out@ == seq!['\n'] + indent@,
{
    let mut out: Vec<char> = Vec::new();
    out.push('\n');
    append(&mut out, indent);
    out
}

/// The indentation of `depth` levels of `width` spaces each.
pub fn indent_chars(width: usize, depth: usize) -> (out: Vec<char>)
    ensures
        out@ == indent_text(width as nat, depth as nat),
{
    let mut out: Vec<char> = Vec::new();
    let step = spaces_of(width);
    let mut level: usize = 0;
    while level < depth
        invariant
            level <= depth,
            step@ == spaces(width as nat),
            out@ == indent_text(width as nat, level as nat),
        decreases depth - level,
    {
        append(&mut out, &step);
        level += 1;
    }
    out
}

/// The indentation of `depth` levels of `width` spaces each, as a string.
pub fn indent_space(width: usize, depth: usize) -> (out: String)
    ensures
        out@ == indent_text(width as nat, depth as nat),
{
    let chars = indent_chars(width, depth);
    string_of(&chars)
}

} // verus!
