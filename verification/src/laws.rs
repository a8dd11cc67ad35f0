//! What holds of every rendering: the laws that the layout rules obey.
use crate::attach::attached;
use crate::document::{
    document, ends_with_one_newline, lemma_without_final_newlines, with_final_newline,
    without_final_newlines,
};
use crate::indent::newline_at;
use crate::join::{join_kind, JoinKind};
use crate::options::OptionData;
use crate::comment::comment_line;
use crate::render::{content_depth, folded, joined, rendered};
use crate::source::span_text;
use crate::text::{is_blank, trim};
use crate::tree::{RuleTag, SyntaxTree};
use crate::unicode::utf8_len;
use crate::wrap::{
    bracket_tail, bracketed, closing, first_of, is_hollow, is_stacked, item_close, last_of,
    opening, render_kind, Bracket, RenderKind,
};
use vstd::prelude::*;

verus! {

/// A text opens with its first part and closes with its last.
pub proof fn lemma_parts(a: Seq<char>, b: Seq<char>)
    ensures
        a.is_prefix_of(a + b),
        b.is_suffix_of(a + b),
{
    assert((a + b).subrange(0, a.len() as int) =~= a);
    assert((a + b).subrange(((a + b).len() - b.len()) as int, (a + b).len() as int) =~= b);
}

/// A leaf is written out as it stands in the source: a node whose form is
/// verbatim renders as the piece of the source that its span addresses,
/// whatever the depth and the options.
pub proof fn lemma_leaf_verbatim(
    text: Seq<char>,
    tree: SyntaxTree,
    depth: nat,
    options: OptionData,
)
    requires
        render_kind(tree.rule) == RenderKind::Verbatim,
    ensures
        rendered(text, tree, depth, options) == span_text(text, tree.span),
{
}

/// Whatever is closed by `with_final_newline` ends with a line feed, and with
/// no more than one.
pub proof fn lemma_one_final_newline(s: Seq<char>)
    ensures
        ends_with_one_newline(with_final_newline(s)),
{
    lemma_without_final_newlines(s);
}

/// Closing a text that is closed already changes nothing.
pub proof fn lemma_final_newline_settles(s: Seq<char>)
    ensures
        with_final_newline(with_final_newline(s)) == with_final_newline(s),
{
    lemma_without_final_newlines(s);
    let kept = without_final_newlines(s);
    let closed = kept.push('\n');
    assert(closed.drop_last() =~= kept);
    assert(without_final_newlines(closed) == without_final_newlines(kept));
    assert(without_final_newlines(kept) == kept);
}

/// A formatted document ends with exactly one line feed, whatever the source
/// and its tree.
pub proof fn lemma_document_ends_with_one_newline(
    text: Seq<char>,
    tree: SyntaxTree,
    options: OptionData,
)
    ensures
        ends_with_one_newline(document(text, tree, options)),
{
    lemma_one_final_newline(rendered(text, attached(text, tree), 0, options));
}

/// A text of three parts opens with the first and closes with the last.
pub proof fn lemma_framed(a: Seq<char>, m: Seq<char>, c: Seq<char>)
    ensures
        a.is_prefix_of(a + m + c),
        c.is_suffix_of(a + m + c),
{
    lemma_parts(a, m + c);
    assert(a + m + c =~= a + (m + c));
    lemma_parts(a + m, c);
}

/// Seven parts in a row, grouped in the two ways that show what such a text
/// opens and closes with.
proof fn lemma_regroup(
    a: Seq<char>,
    b: Seq<char>,
    c: Seq<char>,
    d: Seq<char>,
    e: Seq<char>,
    f: Seq<char>,
    g: Seq<char>,
)
    ensures
        a + b + c + d + e + f + g == a + (b + c + d + e) + (f + g),
        a + b + c + d + e + f + g == (a + b + c) + d + (e + (f + g)),
{
    assert(a + b + c + d + e + f + g =~= a + (b + c + d + e) + (f + g));
    assert(a + b + c + d + e + f + g =~= (a + b + c) + d + (e + (f + g)));
}

/// Delimiters come in pairs, and what they enclose stands one level deeper.
/// Content set between delimiters for a node at `depth` opens with the
/// opening delimiter and closes with the closing one and what the rule puts
/// after it. Where the content stands on lines of its own, the opening
/// delimiter is followed by a line break indented to `depth + 1` and the
/// content; the closing delimiter is preceded by a line break indented to
/// `depth`.
pub proof fn lemma_bracketed_shape(
    b: Bracket,
    content: Seq<char>,
    own: Seq<char>,
    width: nat,
    depth: nat,
    row_length: nat,
)
    ensures
        ({
            let whole = bracketed(b, content, own, width, depth, row_length);
            let close = closing(b, own) + bracket_tail(b, own);
            &&& opening(b, own).is_prefix_of(whole)
            &&& close.is_suffix_of(whole)
            &&& !is_hollow(b, content) && is_stacked(b, content, own, row_length) ==> {
                &&& (opening(b, own) + newline_at(width, depth + 1) + content).is_prefix_of(whole)
                &&& (newline_at(width, depth) + close).is_suffix_of(whole)
            }
        }),
{
    let whole = bracketed(b, content, own, width, depth, row_length);
    let open = opening(b, own);
    let shut = closing(b, own);
    let tail = bracket_tail(b, own);
    let inner = newline_at(width, depth + 1);
    let outer = newline_at(width, depth);
    let mark = item_close(b, content);
    if is_hollow(b, content) {
        assert(whole =~= open + Seq::<char>::empty() + (shut + tail));
        lemma_framed(open, Seq::<char>::empty(), shut + tail);
    } else if is_stacked(b, content, own, row_length) {
        lemma_regroup(open, inner, content, mark, outer, shut, tail);
        lemma_framed(open, inner + content + mark + outer, shut + tail);
        lemma_framed(open + inner + content, mark, outer + (shut + tail));
    } else {
        assert(whole =~= open + (" "@ + content + " "@) + (shut + tail));
        lemma_framed(open, " "@ + content + " "@, shut + tail);
    }
}

/// A node whose form is a pair of delimiters renders as its content, joined
/// one level deeper, set between them.
pub proof fn lemma_brackets_enclose_deeper(
    text: Seq<char>,
    tree: SyntaxTree,
    depth: nat,
    options: OptionData,
    b: Bracket,
)
    requires
        render_kind(tree.rule) == RenderKind::Bracketed(b),
    ensures
        rendered(text, tree, depth, options) == bracketed(
            b,
            joined(text, tree, depth + 1, options),
            span_text(text, tree.span),
            options.indent_space as nat,
            depth,
            options.row_length as nat,
        ),
{
}

/// A text argument that is too long for one line stands on lines of its own:
/// where the content of a command's text argument is not blank and would
/// take more than the row length on one line, between its delimiters and one
/// space on each side, the rendering is the opening delimiter, the content on
/// a new line one level deeper, and the closing delimiter on a new line at
/// the argument's own depth.
pub proof fn lemma_long_text_argument_stacked(
    text: Seq<char>,
    tree: SyntaxTree,
    depth: nat,
    options: OptionData,
)
    requires
        tree.rule == RuleTag::CmdTextArg,
        !is_blank(joined(text, tree, depth + 1, options)),
        utf8_len(
            first_of(span_text(text, tree.span)) + " "@ + joined(text, tree, depth + 1, options)
                + " "@ + last_of(span_text(text, tree.span)),
        ) > options.row_length,
    ensures
        rendered(text, tree, depth, options) == first_of(span_text(text, tree.span)) + newline_at(
            options.indent_space as nat,
            depth + 1,
        ) + joined(text, tree, depth + 1, options) + newline_at(options.indent_space as nat, depth)
            + last_of(span_text(text, tree.span)),
{
    let own = span_text(text, tree.span);
    let content = joined(text, tree, depth + 1, options);
    let width = options.indent_space as nat;
    assert(render_kind(tree.rule) == RenderKind::Bracketed(Bracket::TextArgument));
    assert(is_stacked(Bracket::TextArgument, content, own, options.row_length as nat));
    assert(rendered(text, tree, depth, options) =~= first_of(own) + newline_at(width, depth + 1)
        + content + newline_at(width, depth) + last_of(own));
}

/// What stands between the callee of an application and each of its
/// arguments: nothing where the callee reads `document`, one space
/// everywhere else.
pub open spec fn argument_gap(callee: Seq<char>) -> Seq<char> {
    if callee == "document"@ {
        Seq::empty()
    } else {
        " "@
    }
}

/// In an application the text of the callee comes first, and every argument
/// follows the text before it after one space, unless the callee reads
/// `document`: then it follows directly.
pub proof fn lemma_application_spacing(
    text: Seq<char>,
    tree: SyntaxTree,
    depth: nat,
    options: OptionData,
    k: nat,
)
    requires
        tree.rule == RuleTag::Application,
        1 <= k < tree.children.len(),
    ensures
        folded(text, tree, depth, options, 1).text == rendered(
            text,
            tree.children[0],
            depth,
            options,
        ),
        folded(text, tree, depth, options, k + 1).text == folded(text, tree, depth, options, k).text
            + argument_gap(rendered(text, tree.children[0], depth, options)) + rendered(
            text,
            tree.children[k as int],
            depth,
            options,
        ),
        folded(text, tree, depth, options, k).mark == (rendered(
            text,
            tree.children[0],
            depth,
            options,
        ) != "document"@),
    decreases k,
{
    assert(join_kind(tree.rule) == JoinKind::Application);
    if k > 1 {
        lemma_application_spacing(text, tree, depth, options, (k - 1) as nat);
    }
    let before = folded(text, tree, depth, options, k);
    let s = rendered(text, tree.children[k as int], depth, options);
    if !before.mark {
        assert(before.text + Seq::<char>::empty() + s =~= before.text + s);
    }
}

/// The items between a pair of delimiters stand one level deeper than the
/// delimiters, each on a line of its own: in a list, a record, a record type
/// and among typed command parameters, an item that follows another is set
/// off from it by a semicolon and a line break indented to `depth + 1`, where
/// `depth` is the depth of the node that holds the delimiters.
pub proof fn lemma_items_one_level_deeper(
    text: Seq<char>,
    tree: SyntaxTree,
    depth: nat,
    options: OptionData,
    k: nat,
)
    requires
        tree.rule == RuleTag::List || tree.rule == RuleTag::Record || tree.rule
            == RuleTag::TypeRecord || tree.rule == RuleTag::TypeInlineCmd || tree.rule
            == RuleTag::TypeBlockCmd || tree.rule == RuleTag::TypeMathCmd,
        k < tree.children.len(),
        folded(text, tree, depth + 1, options, k).text.len() > 0,
        !folded(text, tree, depth + 1, options, k).mark,
        rendered(text, tree.children[k as int], depth + 1, options).len() > 0,
    ensures
        content_depth(render_kind(tree.rule), depth) == depth + 1,
        folded(text, tree, depth + 1, options, k + 1).text == folded(
            text,
            tree,
            depth + 1,
            options,
            k,
        ).text + ";"@ + newline_at(options.indent_space as nat, depth + 1) + rendered(
            text,
            tree.children[k as int],
            depth + 1,
            options,
        ),
{
    let acc = folded(text, tree, depth + 1, options, k);
    let s = rendered(text, tree.children[k as int], depth + 1, options);
    let inner = newline_at(options.indent_space as nat, depth + 1);
    assert(join_kind(tree.rule) == JoinKind::Plain);
    assert(acc.text + (";"@ + inner) + s =~= acc.text + ";"@ + inner + s);
}

/// The ways of joining in which a comment follows the text before it at once.
pub open spec fn splices_comments(kind: JoinKind) -> bool {
    match kind {
        JoinKind::Binding
        | JoinKind::Unary
        | JoinKind::Lambda
        | JoinKind::RecordUnit
        | JoinKind::TypeRecordUnit
        | JoinKind::Bind
        | JoinKind::TypeChain
        | JoinKind::Module
        | JoinKind::Members
        | JoinKind::Preamble => true,
        _ => false,
    }
}

/// A comment follows the text before it at once and ends its line at the
/// depth of the node that holds it: where child `k` is a comment, the text
/// gathered from `k + 1` children is the text gathered from `k`, the comment
/// without its trailing white space, and a line break indented to `depth`.
pub proof fn lemma_comment_follows_at_once(
    text: Seq<char>,
    tree: SyntaxTree,
    depth: nat,
    options: OptionData,
    k: nat,
)
    requires
        splices_comments(join_kind(tree.rule)),
        k < tree.children.len(),
        tree.children[k as int].rule == RuleTag::Comments,
    ensures
        folded(text, tree, depth, options, k + 1).text == folded(text, tree, depth, options, k).text
            + comment_line(span_text(text, tree.children[k as int].span)) + newline_at(
            options.indent_space as nat,
            depth,
        ),
        join_kind(tree.rule) == JoinKind::Preamble ==> folded(
            text,
            tree,
            depth,
            options,
            k + 1,
        ).mark,
{
    let acc = folded(text, tree, depth, options, k);
    let child = tree.children[k as int];
    let own = comment_line(span_text(text, child.span));
    let newline = newline_at(options.indent_space as nat, depth);
    let s = rendered(text, child, depth, options);
    assert(s == own + newline);
    assert(acc.text + (own + newline) =~= acc.text + own + newline);
    if acc.text.len() == 0 {
        assert(acc.text + s =~= s);
    }
}

/// Among the statements at the top of a file, the statement after a comment
/// starts right after the line break that ends the comment: where child `k`
/// is a comment and child `k + 1` is none, the text gathered from `k + 2`
/// children is the text gathered from `k + 1` followed by the trimmed
/// rendering of child `k + 1`.
pub proof fn lemma_statement_follows_comment(
    text: Seq<char>,
    tree: SyntaxTree,
    depth: nat,
    options: OptionData,
    k: nat,
)
    requires
        join_kind(tree.rule) == JoinKind::Preamble,
        k + 1 < tree.children.len(),
        tree.children[k as int].rule == RuleTag::Comments,
        tree.children[(k + 1) as int].rule != RuleTag::Comments,
    ensures
        folded(text, tree, depth, options, k + 2).text == folded(
            text,
            tree,
            depth,
            options,
            k + 1,
        ).text + trim(rendered(text, tree.children[(k + 1) as int], depth, options)),
{
    lemma_comment_follows_at_once(text, tree, depth, options, k);
    let acc = folded(text, tree, depth, options, k + 1);
    let t = trim(rendered(text, tree.children[(k + 1) as int], depth, options));
    if t.len() == 0 {
        assert(acc.text + t =~= acc.text);
    }
}

/// Among the statements at the top of a file, a statement closes the text
/// gathered up to it: where child `k` is no comment, the text gathered from
/// `k + 1` children ends with the trimmed rendering of child `k`.
pub proof fn lemma_statement_closes_text(
    text: Seq<char>,
    tree: SyntaxTree,
    depth: nat,
    options: OptionData,
    k: nat,
)
    requires
        join_kind(tree.rule) == JoinKind::Preamble,
        k < tree.children.len(),
        tree.children[k as int].rule != RuleTag::Comments,
        trim(rendered(text, tree.children[k as int], depth, options)).len() > 0,
    ensures
        trim(rendered(text, tree.children[k as int], depth, options)).is_suffix_of(
            folded(text, tree, depth, options, k + 1).text,
        ),
{
    let acc = folded(text, tree, depth, options, k);
    let t = trim(rendered(text, tree.children[k as int], depth, options));
    if acc.text.len() == 0 || acc.mark {
        lemma_parts(acc.text, t);
    } else {
        lemma_parts(acc.text + "\n\n"@, t);
    }
}

/// A comment between two statements at the top of a file stands between
/// their texts: the first statement, the comment right after it, a line break
/// indented to the depth at which the statements stand, and only then the
/// second statement. Where child `k` and child `k + 2` are statements and
/// child `k + 1` is a comment, the text gathered from `k + 3` children is the
/// text gathered from `k + 1`, which ends with the first statement, followed
/// by the comment, the line break and the second statement.
pub proof fn lemma_comment_between_statements(
    text: Seq<char>,
    tree: SyntaxTree,
    depth: nat,
    options: OptionData,
    k: nat,
)
    requires
        join_kind(tree.rule) == JoinKind::Preamble,
        k + 2 < tree.children.len(),
        tree.children[k as int].rule != RuleTag::Comments,
        tree.children[(k + 1) as int].rule == RuleTag::Comments,
        tree.children[(k + 2) as int].rule != RuleTag::Comments,
        trim(rendered(text, tree.children[k as int], depth, options)).len() > 0,
    ensures
        trim(rendered(text, tree.children[k as int], depth, options)).is_suffix_of(
            folded(text, tree, depth, options, k + 1).text,
        ),
        folded(text, tree, depth, options, k + 3).text == folded(
            text,
            tree,
            depth,
            options,
            k + 1,
        ).text + comment_line(span_text(text, tree.children[(k + 1) as int].span)) + newline_at(
            options.indent_space as nat,
            depth,
        ) + trim(rendered(text, tree.children[(k + 2) as int], depth, options)),
{
    lemma_statement_closes_text(text, tree, depth, options, k);
    lemma_comment_follows_at_once(text, tree, depth, options, k + 1);
    lemma_statement_follows_comment(text, tree, depth, options, k + 1);
}

} // verus!
