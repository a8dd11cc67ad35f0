//! The place of a comment that trails a statement: in the formatted document
//! it stands right after the statement it follows in the source, and before
//! the statement that comes next.
use crate::attach::{
    attached, attached_upto, comments_between, gap_start, lemma_comments_between_are_comments,
};
use crate::comment::comment_line;
use crate::document::{document, with_final_newline};
use crate::indent::newline_at;
use crate::laws::lemma_comment_between_statements;
use crate::options::OptionData;
use crate::preserve::{
    is_solid, lemma_closing_keeps, lemma_later_children_keep, lemma_parent_keeps,
    lemma_rendering_keeps, occurs_at, placed,
};
use crate::render::{folded, rendered};
use crate::source::span_text;
use crate::text::{lemma_trim_end, lemma_trim_start, trim, trim_start};
use crate::tree::{RuleTag, SyntaxTree};
use crate::wrap::{reads_children, render_kind};
use vstd::prelude::*;

verus! {

/// A statement, the comment that trails it, and the statement that comes
/// next, as they are written out at `depth`: the trimmed rendering of the
/// first, the comment without its trailing white space, a line break indented
/// to `depth`, and the trimmed rendering of the second.
pub open spec fn trailed_pair(
    text: Seq<char>,
    first: SyntaxTree,
    comment: SyntaxTree,
    second: SyntaxTree,
    depth: nat,
    options: OptionData,
) -> Seq<char> {
    trim(rendered(text, first, depth, options)) + comment_line(span_text(text, comment.span))
        + newline_at(options.indent_space as nat, depth) + trim(
        rendered(text, second, depth, options),
    )
}

/// What trimming leaves of a text is solid, unless it leaves nothing.
pub proof fn lemma_trimmed_is_solid(s: Seq<char>)
    requires
        trim(s).len() > 0,
    ensures
        is_solid(trim(s)),
{
    let front = trim_start(s);
    lemma_trim_start(s);
    lemma_trim_end(front);
    assert(trim(s)[0] == front[0]);
}

/// A text that ends with `first` and goes on with `comment`, `newline` and
/// `second` holds the four as one solid piece.
pub proof fn lemma_pieces_in_a_row(
    up_to_first: Seq<char>,
    first: Seq<char>,
    comment: Seq<char>,
    newline: Seq<char>,
    second: Seq<char>,
) -> (at: Seq<int>)
    requires
        is_solid(first),
        is_solid(second),
        first.is_suffix_of(up_to_first),
    ensures
        is_solid(first + comment + newline + second),
        placed(
            seq![first + comment + newline + second],
            up_to_first + comment + newline + second,
            at,
        ),
{
    let block = first + comment + newline + second;
    let whole = up_to_first + comment + newline + second;
    let before = up_to_first.len() - first.len();
    assert(block[0] == first[0]);
    assert(block.last() == second.last());
    assert(whole.subrange(before, before + block.len()) =~= block);
    seq![before]
}

/// Among the statements at the top of a file, a comment that stands between
/// two statements is written out between them: where children `k` and `k + 2`
/// of a preamble are statements and child `k + 1` is a comment, the three
/// stand in the rendering of the preamble as their `trailed_pair`.
pub proof fn lemma_trailed_pair_in_preamble(
    text: Seq<char>,
    tree: SyntaxTree,
    depth: nat,
    options: OptionData,
    k: nat,
) -> (at: Seq<int>)
    requires
        tree.rule == RuleTag::Preamble,
        k + 2 < tree.children.len(),
        tree.children[k as int].rule != RuleTag::Comments,
        tree.children[(k + 1) as int].rule == RuleTag::Comments,
        tree.children[(k + 2) as int].rule != RuleTag::Comments,
        trim(rendered(text, tree.children[k as int], depth, options)).len() > 0,
        trim(rendered(text, tree.children[(k + 2) as int], depth, options)).len() > 0,
    ensures
        is_solid(
            trailed_pair(
                text,
                tree.children[k as int],
                tree.children[(k + 1) as int],
                tree.children[(k + 2) as int],
                depth,
                options,
            ),
        ),
        placed(
            seq![
                trailed_pair(
                    text,
                    tree.children[k as int],
                    tree.children[(k + 1) as int],
                    tree.children[(k + 2) as int],
                    depth,
                    options,
                ),
            ],
            rendered(text, tree, depth, options),
            at,
        ),
{
    let first = trim(rendered(text, tree.children[k as int], depth, options));
    let second = trim(rendered(text, tree.children[(k + 2) as int], depth, options));
    let comment = comment_line(span_text(text, tree.children[(k + 1) as int].span));
    let newline = newline_at(options.indent_space as nat, depth);
    let parts = seq![first + comment + newline + second];
    lemma_comment_between_statements(text, tree, depth, options, k);
    lemma_trimmed_is_solid(rendered(text, tree.children[k as int], depth, options));
    lemma_trimmed_is_solid(rendered(text, tree.children[(k + 2) as int], depth, options));
    let up_to_first = folded(text, tree, depth, options, k + 1).text;
    let in_three = lemma_pieces_in_a_row(up_to_first, first, comment, newline, second);
    let in_all = lemma_later_children_keep(
        text,
        tree,
        depth,
        options,
        k + 3,
        tree.children.len(),
        parts,
        in_three,
    );
    lemma_rendering_keeps(text, tree, depth, options, parts, in_all)
}

/// A comment between two statements at the top of a file is written out
/// between them in the document of the file: where child `place` of a program
/// is its preamble, and children `k` and `k + 2` of the preamble are
/// statements and child `k + 1` is a comment, the three stand as their
/// `trailed_pair` in the rendering of the program, closed with one line feed.
pub proof fn lemma_trailed_pair_in_program(
    text: Seq<char>,
    tree: SyntaxTree,
    options: OptionData,
    place: nat,
    k: nat,
) -> (at: Seq<int>)
    requires
        tree.rule == RuleTag::ProgramSaty || tree.rule == RuleTag::ProgramSatyh,
        place < tree.children.len(),
        tree.children[place as int].rule == RuleTag::Preamble,
        k + 2 < tree.children[place as int].children.len(),
        tree.children[place as int].children[k as int].rule != RuleTag::Comments,
        tree.children[place as int].children[(k + 1) as int].rule == RuleTag::Comments,
        tree.children[place as int].children[(k + 2) as int].rule != RuleTag::Comments,
        trim(rendered(text, tree.children[place as int].children[k as int], 0, options)).len() > 0,
        trim(
            rendered(text, tree.children[place as int].children[(k + 2) as int], 0, options),
        ).len() > 0,
    ensures
        placed(
            seq![
                trailed_pair(
                    text,
                    tree.children[place as int].children[k as int],
                    tree.children[place as int].children[(k + 1) as int],
                    tree.children[place as int].children[(k + 2) as int],
                    0,
                    options,
                ),
            ],
            with_final_newline(rendered(text, tree, 0, options)),
            at,
        ),
{
    let preamble = tree.children[place as int];
    let parts = seq![
        trailed_pair(
            text,
            preamble.children[k as int],
            preamble.children[(k + 1) as int],
            preamble.children[(k + 2) as int],
            0,
            options,
        ),
    ];
    let in_preamble = lemma_trailed_pair_in_preamble(text, preamble, 0, options, k);
    let in_body = lemma_parent_keeps(text, tree, 0, options, place, parts, in_preamble);
    lemma_closing_keeps(parts, rendered(text, tree, 0, options), in_body);
    in_body
}

/// The children gathered with their comments from the first `k` children of
/// a tree open those gathered from more of them.
pub proof fn lemma_attached_upto_grows(text: Seq<char>, tree: SyntaxTree, k: nat, m: nat)
    requires
        k <= m <= tree.children.len(),
    ensures
        attached_upto(text, tree, k).len() <= attached_upto(text, tree, m).len(),
        forall|i: int|
            0 <= i < attached_upto(text, tree, k).len() ==> attached_upto(text, tree, m)[i]
                == #[trigger] attached_upto(text, tree, k)[i],
    decreases m - k,
{
    if k < m {
        lemma_attached_upto_grows(text, tree, k, (m - 1) as nat);
    }
}

/// What is gathered with comments from some children of a tree is found at
/// the same places among the children of the tree with comments attached.
pub proof fn lemma_attached_holds(text: Seq<char>, tree: SyntaxTree, m: nat, at: int)
    requires
        reads_children(render_kind(tree.rule)),
        m <= tree.children.len(),
        0 <= at < attached_upto(text, tree, m).len(),
    ensures
        at < attached(text, tree).children.len(),
        attached(text, tree).children[at] == attached_upto(text, tree, m)[at],
        attached(text, tree).rule == tree.rule,
{
    lemma_attached_upto_grows(text, tree, m, tree.children.len());
    let all = attached_upto(text, tree, tree.children.len());
    let last = comments_between(
        text,
        gap_start(tree, tree.children.len() as int),
        tree.span.end,
    );
    assert(attached(text, tree).children == all + last);
    assert((all + last)[at] == all[at]);
}

/// The last of what is gathered with comments from the first `i + 1` children
/// of a tree is child `i` with its comments attached.
pub proof fn lemma_attached_upto_last(text: Seq<char>, tree: SyntaxTree, i: nat)
    requires
        i < tree.children.len(),
    ensures
        attached_upto(text, tree, i + 1).len() > 0,
        attached_upto(text, tree, i + 1).last() == attached(text, tree.children[i as int]),
        attached_upto(text, tree, i + 1).last().rule == tree.children[i as int].rule,
{
}

/// Every child of a tree is a child of the tree with comments attached, with
/// its own comments attached: child `i` is found at the place that this
/// lemma hands back.
pub proof fn lemma_attached_child(text: Seq<char>, tree: SyntaxTree, i: nat) -> (k: int)
    requires
        reads_children(render_kind(tree.rule)),
        i < tree.children.len(),
    ensures
        0 <= k < attached(text, tree).children.len(),
        k + 1 == attached_upto(text, tree, i + 1).len(),
        attached(text, tree).children[k] == attached(text, tree.children[i as int]),
        attached(text, tree).children[k].rule == tree.children[i as int].rule,
        attached(text, tree).rule == tree.rule,
{
    lemma_attached_upto_last(text, tree, i);
    let k = attached_upto(text, tree, i + 1).len() - 1;
    lemma_attached_holds(text, tree, i + 1, k);
    k
}

/// Where the source holds exactly one comment between children `i` and
/// `i + 1` of a tree, what is gathered with comments from the first `i + 2`
/// children ends with child `i`, the comment and child `i + 1`.
pub proof fn lemma_attached_upto_neighbours(text: Seq<char>, tree: SyntaxTree, i: nat) -> (k: int)
    requires
        i + 1 < tree.children.len(),
        comments_between(
            text,
            tree.children[i as int].span.end,
            tree.children[(i + 1) as int].span.start,
        ).len() == 1,
    ensures
        0 <= k,
        k + 3 == attached_upto(text, tree, i + 2).len(),
        attached_upto(text, tree, i + 2)[k] == attached(text, tree.children[i as int]),
        attached_upto(text, tree, i + 2)[k + 1] == comments_between(
            text,
            tree.children[i as int].span.end,
            tree.children[(i + 1) as int].span.start,
        )[0],
        attached_upto(text, tree, i + 2)[k + 2] == attached(text, tree.children[(i + 1) as int]),
{
    let found = comments_between(
        text,
        tree.children[i as int].span.end,
        tree.children[(i + 1) as int].span.start,
    );
    let one = attached_upto(text, tree, i + 1);
    let two = attached_upto(text, tree, i + 2);
    lemma_attached_upto_last(text, tree, i);
    assert(gap_start(tree, (i + 1) as int) == tree.children[i as int].span.end);
    assert(two == one + found + seq![attached(text, tree.children[(i + 1) as int])]);
    let k = one.len() - 1;
    assert(two[k] == one[k]);
    assert(two[k + 1] == found[0]);
    k
}

/// Where the source holds exactly one comment between two children of a tree,
/// the tree with comments attached holds the first child, the comment and the
/// second child one after another, from the place that this lemma hands back.
pub proof fn lemma_attached_neighbours(text: Seq<char>, tree: SyntaxTree, i: nat) -> (k: int)
    requires
        reads_children(render_kind(tree.rule)),
        i + 1 < tree.children.len(),
        comments_between(
            text,
            tree.children[i as int].span.end,
            tree.children[(i + 1) as int].span.start,
        ).len() == 1,
    ensures
        0 <= k,
        k + 2 < attached(text, tree).children.len(),
        attached(text, tree).children[k] == attached(text, tree.children[i as int]),
        attached(text, tree).children[k + 1] == comments_between(
            text,
            tree.children[i as int].span.end,
            tree.children[(i + 1) as int].span.start,
        )[0],
        attached(text, tree).children[k + 2] == attached(text, tree.children[(i + 1) as int]),
        attached(text, tree).children[k].rule == tree.children[i as int].rule,
        attached(text, tree).children[k + 1].rule == RuleTag::Comments,
        attached(text, tree).children[k + 2].rule == tree.children[(i + 1) as int].rule,
        attached(text, tree).rule == tree.rule,
{
    lemma_comments_between_are_comments(
        text,
        tree.children[i as int].span.end,
        tree.children[(i + 1) as int].span.start,
    );
    let k = lemma_attached_upto_neighbours(text, tree, i);
    lemma_attached_holds(text, tree, i + 2, k);
    lemma_attached_holds(text, tree, i + 2, k + 1);
    lemma_attached_holds(text, tree, i + 2, k + 2);
    lemma_attached_upto_last(text, tree, i);
    lemma_attached_upto_last(text, tree, i + 1);
    k
}

/// A comment that trails a statement is written out right after it. Let the
/// tree of a file hold, among the statements at its top, two statements with
/// exactly one comment between them in the source. Then the formatted
/// document holds the text of the first statement, right after it the
/// comment, then a line break at the depth of the statements, and only then
/// the text of the second statement: no part of the second precedes the
/// comment, and no part of the first follows it.
pub proof fn lemma_trailing_comment_in_document(
    text: Seq<char>,
    tree: SyntaxTree,
    options: OptionData,
    j: nat,
    i: nat,
) -> (at: int)
    requires
        tree.rule == RuleTag::ProgramSaty || tree.rule == RuleTag::ProgramSatyh,
        j < tree.children.len(),
        tree.children[j as int].rule == RuleTag::Preamble,
        i + 1 < tree.children[j as int].children.len(),
        tree.children[j as int].children[i as int].rule != RuleTag::Comments,
        tree.children[j as int].children[(i + 1) as int].rule != RuleTag::Comments,
        comments_between(
            text,
            tree.children[j as int].children[i as int].span.end,
            tree.children[j as int].children[(i + 1) as int].span.start,
        ).len() == 1,
        trim(
            rendered(text, attached(text, tree.children[j as int].children[i as int]), 0, options),
        ).len() > 0,
        trim(
            rendered(
                text,
                attached(text, tree.children[j as int].children[(i + 1) as int]),
                0,
                options,
            ),
        ).len() > 0,
    ensures
        occurs_at(
            trailed_pair(
                text,
                attached(text, tree.children[j as int].children[i as int]),
                comments_between(
                    text,
                    tree.children[j as int].children[i as int].span.end,
                    tree.children[j as int].children[(i + 1) as int].span.start,
                )[0],
                attached(text, tree.children[j as int].children[(i + 1) as int]),
                0,
                options,
            ),
            document(text, tree, options),
            at,
        ),
{
    let k = lemma_attached_neighbours(text, tree.children[j as int], i);
    let place = lemma_attached_child(text, tree, j);
    let in_document = lemma_trailed_pair_named(
        text,
        attached(text, tree),
        options,
        place as nat,
        k as nat,
        attached(text, tree.children[j as int]),
        attached(text, tree.children[j as int].children[i as int]),
        comments_between(
            text,
            tree.children[j as int].children[i as int].span.end,
            tree.children[j as int].children[(i + 1) as int].span.start,
        )[0],
        attached(text, tree.children[j as int].children[(i + 1) as int]),
    );
    in_document[0]
}

/// `lemma_trailed_pair_in_program` with the preamble, the two statements and
/// the comment given by name.
pub proof fn lemma_trailed_pair_named(
    text: Seq<char>,
    tree: SyntaxTree,
    options: OptionData,
    place: nat,
    k: nat,
    preamble: SyntaxTree,
    first: SyntaxTree,
    comment: SyntaxTree,
    second: SyntaxTree,
) -> (at: Seq<int>)
    requires
        tree.rule == RuleTag::ProgramSaty || tree.rule == RuleTag::ProgramSatyh,
        place < tree.children.len(),
        tree.children[place as int] == preamble,
        preamble.rule == RuleTag::Preamble,
        k + 2 < preamble.children.len(),
        preamble.children[k as int] == first,
        preamble.children[(k + 1) as int] == comment,
        preamble.children[(k + 2) as int] == second,
        first.rule != RuleTag::Comments,
        comment.rule == RuleTag::Comments,
        second.rule != RuleTag::Comments,
        trim(rendered(text, first, 0, options)).len() > 0,
        trim(rendered(text, second, 0, options)).len() > 0,
    ensures
        at.len() == 1,
        occurs_at(
            trailed_pair(text, first, comment, second, 0, options),
            with_final_newline(rendered(text, tree, 0, options)),
            at[0],
        ),
{
    let at = lemma_trailed_pair_in_program(text, tree, options, place, k);
    assert(seq![trailed_pair(text, first, comment, second, 0, options)][0] == trailed_pair(
        text,
        first,
        comment,
        second,
        0,
        options,
    ));
    at
}

} // verus!
