//! The document of a syntax tree: its comments attached, rendered from the
//! root, and closed with one line feed.
use crate::attach::{attach_comments, attached};
use crate::options::OptionData;
use crate::render::{rendered, to_string_cst};
use crate::source::SourceText;
use crate::text::{string_of, subvec};
use crate::tree::{SyntaxNode, SyntaxTree};
use vstd::prelude::*;

verus! {

/// `s` without the line feeds it ends with.
pub open spec fn without_final_newlines(s: Seq<char>) -> Seq<char>
    decreases s.len(),
{
    if s.len() > 0 && s.last() == '\n' {
        without_final_newlines(s.drop_last())
    } else {
        s
    }
}

/// `s` closed by exactly one line feed, whatever line feeds it ended with.
pub open spec fn with_final_newline(s: Seq<char>) -> Seq<char> {
    without_final_newlines(s).push('\n')
}

/// A text that ends with a line feed, and with no more than one.
pub open spec fn ends_with_one_newline(s: Seq<char>) -> bool {
    &&& s.len() > 0
    &&& s.last() == '\n'
    &&& s.len() > 1 ==> s[s.len() - 2] != '\n'
}

/// What is left when the final line feeds are dropped is a prefix that does
/// not end with a line feed, and nothing but line feeds was dropped.
pub proof fn lemma_without_final_newlines(s: Seq<char>)
    ensures
        without_final_newlines(s).len() <= s.len(),
        without_final_newlines(s) == s.take(without_final_newlines(s).len() as int),
        without_final_newlines(s).len() > 0 ==> without_final_newlines(s).last() != '\n',
        forall|j: int| without_final_newlines(s).len() <= j < s.len() ==> s[j] == '\n',
    decreases s.len(),
{
    if s.len() > 0 && s.last() == '\n' {
        let t = s.drop_last();
        lemma_without_final_newlines(t);
        assert(t.take(without_final_newlines(t).len() as int) =~= s.take(
            without_final_newlines(s).len() as int,
        ));
        assert forall|j: int| without_final_newlines(s).len() <= j < s.len() implies s[j]
            == '\n' by {
            if j < t.len() {
                assert(s[j] == t[j]);
            }
        }
    } else {
        assert(s.take(s.len() as int) =~= s);
    }
}

/// The formatted text of a whole file: its comments are attached to its tree,
/// the tree is rendered from the root at depth zero, and the rendering is
/// closed by one line feed.
pub open spec fn document(text: Seq<char>, tree: SyntaxTree, options: OptionData) -> Seq<char> {
    with_final_newline(rendered(text, attached(text, tree), 0, options))
}

/// Closes `out` with exactly one line feed.
pub fn finish(out: Vec<char>) -> (closed: Vec<char>)
    ensures
        closed@ == with_final_newline(out@),
        ends_with_one_newline(closed@),
{
    let mut n: usize = out.len();
    assert(out@.take(n as int) =~= out@);
    while n > 0 && out[n - 1] == '\n'
        invariant
            n <= out.len(),
            without_final_newlines(out@) == without_final_newlines(out@.take(n as int)),
        decreases n,
    {
        assert(out@.take(n as int).drop_last() =~= out@.take(n - 1));
        n -= 1;
    }
    let mut closed = subvec(&out, 0, n);
    closed.push('\n');
    closed
}

/// Renders the tree under `root` from depth zero. `text` is the source that
/// the spans of the tree address.
pub fn render(text: &str, root: &SyntaxNode, options: &OptionData) -> (out: String)
    ensures
        out@ == rendered(text@, root@, 0, *options),
{
    let source = SourceText::new(text);
    let indent: Vec<char> = Vec::new();
    let out = to_string_cst(&source, root, &indent, options, Ghost(0));
    string_of(&out)
}

/// Formats the file whose source is `text` and whose tree stands under
/// `root`: attaches the comments, renders from the root at depth zero, and
/// closes the output with one line feed.
pub fn format_tree(text: &str, root: &SyntaxNode, options: &OptionData) -> (out: String)
    ensures
        out@ == document(text@, root@, *options),
        ends_with_one_newline(out@),
{
    let source = SourceText::new(text);
    let whole = attach_comments(&source, root);
    let indent: Vec<char> = Vec::new();
    let body = to_string_cst(&source, &whole, &indent, options, Ghost(0));
    let closed = finish(body);
    string_of(&closed)
}

} // verus!
