//! Delimiters come in pairs and nest: the rendering of a bracketed node opens
//! and closes with its delimiters, and it stands whole in the rendering of
//! every node above it, between the delimiters of every bracketed one.
use crate::attach::attached;
use crate::document::document;
use crate::indent::newline_at;
use crate::laws::lemma_bracketed_shape;
use crate::options::OptionData;
use crate::preserve::{
    all_solid, child_depth, is_solid, lemma_child_in_gathered, lemma_closing_keeps,
    lemma_parent_keeps, lemma_placed_inside, lemma_placed_trim, occurs_at, placed,
};
use crate::render::{joined, rendered};
use crate::source::span_text;
use crate::text::trim;
use crate::tree::SyntaxTree;
use crate::unicode::is_space;
use crate::words::ReservedWord;
use crate::wrap::{
    bracket_tail, bracketed, closing, is_hollow, is_stacked, item_close, one_line, opening,
    reads_children, render_kind, Bracket, RenderKind,
};
use vstd::prelude::*;

verus! {

/// A path from `tree` down names a child at each step. It is open when every
/// node on it but the last has a form that reads its children, so that what
/// the last node is rendered as is written out.
pub open spec fn is_open_path(tree: SyntaxTree, path: Seq<int>) -> bool
    decreases path.len(),
{
    path.len() == 0 || {
        &&& 0 <= path[0] < tree.children.len()
        &&& reads_children(render_kind(tree.rule))
        &&& is_open_path(tree.children[path[0]], path.drop_first())
    }
}

/// The node that `path` leads to from `tree`.
pub open spec fn descendant(tree: SyntaxTree, path: Seq<int>) -> SyntaxTree
    decreases path.len(),
{
    if path.len() == 0 {
        tree
    } else {
        descendant(tree.children[path[0]], path.drop_first())
    }
}

/// The depth at which the node that `path` leads to is written out when
/// `tree` is rendered at `depth`.
pub open spec fn depth_along(
    text: Seq<char>,
    tree: SyntaxTree,
    depth: nat,
    options: OptionData,
    path: Seq<int>,
) -> nat
    decreases path.len(),
{
    if path.len() == 0 {
        depth
    } else {
        depth_along(
            text,
            tree.children[path[0]],
            child_depth(text, tree, depth, options, path[0]),
            options,
            path.drop_first(),
        )
    }
}

/// The brackets whose delimiters are fixed marks: all but the text argument,
/// which takes its delimiters from its source.
pub open spec fn has_fixed_marks(b: Bracket) -> bool {
    match b {
        Bracket::TypedCommand(word) => word == ReservedWord::InlineCommand || word
            == ReservedWord::BlockCommand || word == ReservedWord::MathCommand,
        Bracket::TextArgument => false,
        _ => true,
    }
}

/// What stands in the rendering of a node stands in the rendering of every
/// node above it: solid texts placed in the rendering of the node that an
/// open path leads to are placed in the rendering of the node the path starts
/// from.
pub proof fn lemma_descendant_stands(
    text: Seq<char>,
    tree: SyntaxTree,
    depth: nat,
    options: OptionData,
    path: Seq<int>,
    parts: Seq<Seq<char>>,
    at: Seq<int>,
) -> (moved: Seq<int>)
    requires
        is_open_path(tree, path),
        all_solid(parts),
        placed(
            parts,
            rendered(
                text,
                descendant(tree, path),
                depth_along(text, tree, depth, options, path),
                options,
            ),
            at,
        ),
    ensures
        placed(parts, rendered(text, tree, depth, options), moved),
    decreases path.len(),
{
    if path.len() == 0 {
        at
    } else {
        let child = tree.children[path[0]];
        let inner = child_depth(text, tree, depth, options, path[0]);
        let in_child = lemma_descendant_stands(
            text,
            child,
            inner,
            options,
            path.drop_first(),
            parts,
            at,
        );
        lemma_parent_keeps(text, tree, depth, options, path[0] as nat, parts, in_child)
    }
}

/// Content between fixed marks is solid: it opens with the opening mark and
/// closes with the closing mark or what the rule puts after it, and none of
/// these is white space.
pub proof fn lemma_bracket_is_solid(
    b: Bracket,
    content: Seq<char>,
    own: Seq<char>,
    width: nat,
    depth: nat,
    row_length: nat,
)
    requires
        has_fixed_marks(b),
    ensures
        is_solid(bracketed(b, content, own, width, depth, row_length)),
{
    reveal_strlit("[");
    reveal_strlit("]");
    reveal_strlit("(|");
    reveal_strlit("|)");
    reveal_strlit("'<");
    reveal_strlit("<");
    reveal_strlit(">");
    reveal_strlit(";");
    reveal_strlit(" ");
    reveal_strlit("inline-cmd");
    reveal_strlit("block-cmd");
    reveal_strlit("math-cmd");
    let whole = bracketed(b, content, own, width, depth, row_length);
    let open = opening(b, own);
    let close = closing(b, own) + bracket_tail(b, own);
    lemma_bracketed_shape(b, content, own, width, depth, row_length);
    assert(open.len() > 0 && !is_space(open[0]));
    assert(close.len() > 0 && !is_space(close.last()));
    assert(whole.subrange(0, open.len() as int)[0] == whole[0]);
    assert(whole.subrange(whole.len() - close.len(), whole.len() as int)[close.len() - 1]
        == whole.last());
}

/// What stands in the content of a bracket stands between its delimiters:
/// solid texts placed in the content are placed in the bracketed text after
/// the opening delimiter and before the closing one.
pub proof fn lemma_between_delimiters(
    b: Bracket,
    parts: Seq<Seq<char>>,
    content: Seq<char>,
    own: Seq<char>,
    width: nat,
    depth: nat,
    row_length: nat,
    at: Seq<int>,
) -> (moved: Seq<int>)
    requires
        all_solid(parts),
        placed(parts, content, at),
    ensures
        placed(parts, bracketed(b, content, own, width, depth, row_length), moved),
        forall|i: int|
            0 <= i < parts.len() ==> opening(b, own).len() <= #[trigger] moved[i] && moved[i]
                + parts[i].len() + closing(b, own).len() + bracket_tail(b, own).len() <= bracketed(
                b,
                content,
                own,
                width,
                depth,
                row_length,
            ).len(),
{
    let whole = bracketed(b, content, own, width, depth, row_length);
    let close = closing(b, own) + bracket_tail(b, own);
    let trimmed = lemma_placed_trim(parts, content, at);
    if is_hollow(b, content) {
        if content.len() == 0 {
            assert(trim(content) =~= content);
        }
        assert(whole =~= opening(b, own) + trim(content) + close);
        lemma_placed_inside(parts, trim(content), trimmed, opening(b, own), close)
    } else if is_stacked(b, content, own, row_length) {
        let head = opening(b, own) + newline_at(width, depth + 1);
        let tail = item_close(b, content) + newline_at(width, depth) + close;
        assert(whole =~= head + content + tail);
        lemma_placed_inside(parts, content, at, head, tail)
    } else {
        let head = opening(b, own) + " "@;
        let tail = " "@ + close;
        assert(whole == one_line(b, content, own) + bracket_tail(b, own));
        assert(whole =~= head + content + tail);
        lemma_placed_inside(parts, content, at, head, tail)
    }
}

/// Brackets nest. Let an open path lead from a bracketed node down to a node
/// that is bracketed with fixed marks. Then the rendering of the lower node,
/// which opens and closes with its own delimiters, stands whole in the
/// rendering of the upper one, after its opening delimiter and before its
/// closing one: the pair of the lower node lies inside the pair of the upper.
pub proof fn lemma_brackets_nest(
    text: Seq<char>,
    tree: SyntaxTree,
    depth: nat,
    options: OptionData,
    path: Seq<int>,
    outer: Bracket,
    inner: Bracket,
) -> (at: int)
    requires
        path.len() > 0,
        is_open_path(tree, path),
        render_kind(tree.rule) == RenderKind::Bracketed(outer),
        render_kind(descendant(tree, path).rule) == RenderKind::Bracketed(inner),
        has_fixed_marks(inner),
    ensures
        is_solid(
            rendered(
                text,
                descendant(tree, path),
                depth_along(text, tree, depth, options, path),
                options,
            ),
        ),
        occurs_at(
            rendered(
                text,
                descendant(tree, path),
                depth_along(text, tree, depth, options, path),
                options,
            ),
            rendered(text, tree, depth, options),
            at,
        ),
        opening(outer, span_text(text, tree.span)).len() <= at,
        at + rendered(
            text,
            descendant(tree, path),
            depth_along(text, tree, depth, options, path),
            options,
        ).len() + closing(outer, span_text(text, tree.span)).len() + bracket_tail(
            outer,
            span_text(text, tree.span),
        ).len() <= rendered(text, tree, depth, options).len(),
{
    let lower = descendant(tree, path);
    let lower_depth = depth_along(text, tree, depth, options, path);
    let piece = rendered(text, lower, lower_depth, options);
    let parts = seq![piece];
    lemma_rendering_of_bracket_is_solid(text, lower, lower_depth, options, inner);
    assert(piece.subrange(0, piece.len() as int) =~= piece);
    assert(placed(parts, piece, seq![0int]));
    let child = tree.children[path[0]];
    let in_child = lemma_descendant_stands(
        text,
        child,
        child_depth(text, tree, depth, options, path[0]),
        options,
        path.drop_first(),
        parts,
        seq![0int],
    );
    let in_content = lemma_child_in_gathered(
        text,
        tree,
        depth,
        options,
        path[0] as nat,
        parts,
        in_child,
    );
    let moved = lemma_between_delimiters(
        outer,
        parts,
        joined(text, tree, depth + 1, options),
        span_text(text, tree.span),
        options.indent_space as nat,
        depth,
        options.row_length as nat,
        in_content,
    );
    moved[0]
}

/// The rendering of a node that is bracketed with fixed marks is solid.
pub proof fn lemma_rendering_of_bracket_is_solid(
    text: Seq<char>,
    tree: SyntaxTree,
    depth: nat,
    options: OptionData,
    b: Bracket,
)
    requires
        render_kind(tree.rule) == RenderKind::Bracketed(b),
        has_fixed_marks(b),
    ensures
        is_solid(rendered(text, tree, depth, options)),
{
    lemma_bracket_is_solid(
        b,
        joined(text, tree, depth + 1, options),
        span_text(text, tree.span),
        options.indent_space as nat,
        depth,
        options.row_length as nat,
    );
}

/// Every pair of delimiters is written out whole. Let an open path lead from
/// the root of a file's tree, comments attached, to a node that is bracketed
/// with fixed marks. Then the rendering of that node, from its opening to its
/// closing delimiter, stands whole in the formatted document.
pub proof fn lemma_bracket_stands_in_document(
    text: Seq<char>,
    tree: SyntaxTree,
    options: OptionData,
    path: Seq<int>,
    b: Bracket,
) -> (at: int)
    requires
        is_open_path(attached(text, tree), path),
        render_kind(descendant(attached(text, tree), path).rule) == RenderKind::Bracketed(b),
        has_fixed_marks(b),
    ensures
        occurs_at(
            rendered(
                text,
                descendant(attached(text, tree), path),
                depth_along(text, attached(text, tree), 0, options, path),
                options,
            ),
            document(text, tree, options),
            at,
        ),
{
    let whole = attached(text, tree);
    let lower = descendant(whole, path);
    let lower_depth = depth_along(text, whole, 0, options, path);
    let piece = rendered(text, lower, lower_depth, options);
    let parts = seq![piece];
    lemma_rendering_of_bracket_is_solid(text, lower, lower_depth, options, b);
    assert(piece.subrange(0, piece.len() as int) =~= piece);
    assert(placed(parts, piece, seq![0int]));
    let in_body = lemma_descendant_stands(text, whole, 0, options, path, parts, seq![0int]);
    lemma_closing_keeps(parts, rendered(text, whole, 0, options), in_body);
    in_body[0]
}

} // verus!
