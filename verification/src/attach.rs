//! Attaching comments: a parse leaves comments out of the tree, so each one is
//! found again in the source between the children of a node and joins them as
//! a child of its own.
use crate::source::{
    byte_offset, char_index, is_boundary, lemma_byte_offset_increases, span_ok, SourceText, Span,
};
use crate::tree::{
    laid_out, lemma_laid_out_concat, trees_of, well_formed, RuleTag, SyntaxNode, SyntaxTree,
};
use crate::wrap::{needs_children, reads_children, render_kind, render_kind_of};
use vstd::prelude::*;

verus! {

/// A character that ends a line.
pub open spec fn is_line_break(c: char) -> bool {
    c == '\n' || c == '\r'
}

/// Index of the first line break of `text` from `lo` on and before `hi`; `hi`
/// where there is none.
pub open spec fn line_end(text: Seq<char>, lo: int, hi: int) -> int
    decreases hi - lo,
{
    if lo < 0 || lo >= hi || hi > text.len() {
        hi
    } else if is_line_break(text[lo]) {
        lo
    } else {
        line_end(text, lo + 1, hi)
    }
}

/// The comment that covers the characters of `text` from `from` up to `to`.
pub open spec fn comment_tree(text: Seq<char>, from: int, to: int) -> SyntaxTree {
    SyntaxTree {
        rule: RuleTag::Comments,
        span: Span {
            start: byte_offset(text, from) as usize,
            end: byte_offset(text, to) as usize,
        },
        children: Seq::empty(),
    }
}

/// The comments among the characters of `text` from `lo` up to `hi`, in source
/// order. A comment opens with `%` and runs up to the line break that ends
/// its line, or up to `hi`.
pub open spec fn comments_from(text: Seq<char>, lo: int, hi: int) -> Seq<SyntaxTree>
    decreases hi - lo,
{
    if lo < 0 || lo >= hi || hi > text.len() {
        Seq::empty()
    } else if text[lo] == '%' {
        let end = line_end(text, lo + 1, hi);
        if end <= lo || end > hi {
            Seq::empty()
        } else {
            seq![comment_tree(text, lo, end)] + comments_from(text, end, hi)
        }
    } else {
        comments_from(text, lo + 1, hi)
    }
}

/// The comments in the piece of `text` between the byte offsets `from` and
/// `to`; none where these address no piece of the text.
#[verifier::opaque]
pub open spec fn comments_between(text: Seq<char>, from: usize, to: usize) -> Seq<SyntaxTree> {
    let gap = Span { start: from, end: to };
    if span_ok(text, gap) {
        comments_from(text, char_index(text, from as int), char_index(text, to as int))
    } else {
        Seq::empty()
    }
}

/// Where the source between children starts: at the start of the node before
/// its first child, at the end of the child before for every other.
pub open spec fn gap_start(tree: SyntaxTree, i: int) -> usize {
    if i <= 0 || i > tree.children.len() {
        tree.span.start
    } else {
        tree.children[i - 1].span.end
    }
}

/// A tree with its comments attached. Where the rendering of a node reads its
/// children, the comments between them, before the first and after the last
/// become children too, each in its place in source order, and every child
/// has its own comments attached. A node whose rendering does not read its
/// children stays as it is.
pub open spec fn attached(text: Seq<char>, tree: SyntaxTree) -> SyntaxTree
    decreases tree, 1nat,
{
    if reads_children(render_kind(tree.rule)) {
        SyntaxTree {
            rule: tree.rule,
            span: tree.span,
            children: attached_upto(text, tree, tree.children.len()) + comments_between(
                text,
                gap_start(tree, tree.children.len() as int),
                tree.span.end,
            ),
        }
    } else {
        tree
    }
}

/// The first `k` children of `tree` with their comments attached, and the
/// comments before each of them.
pub open spec fn attached_upto(text: Seq<char>, tree: SyntaxTree, k: nat) -> Seq<SyntaxTree>
    decreases tree, 0nat, k,
{
    if k == 0 || k > tree.children.len() {
        Seq::empty()
    } else {
        attached_upto(text, tree, (k - 1) as nat) + comments_between(
            text,
            gap_start(tree, k - 1),
            tree.children[k - 1].span.start,
        ) + seq![attached(text, tree.children[k - 1])]
    }
}

/// The first line break from `lo` on lies between `lo` and `hi`, and no line
/// break comes before it.
pub proof fn lemma_line_end(text: Seq<char>, lo: int, hi: int)
    requires
        0 <= lo <= hi <= text.len(),
    ensures
        lo <= line_end(text, lo, hi) <= hi,
        line_end(text, lo, hi) < hi ==> is_line_break(text[line_end(text, lo, hi)]),
        forall|j: int| lo <= j < line_end(text, lo, hi) ==> !is_line_break(text[j]),
    decreases hi - lo,
{
    if lo < hi && !is_line_break(text[lo]) {
        lemma_line_end(text, lo + 1, hi);
    }
}

/// The comments found among the characters from `lo` up to `hi` are laid out
/// between the byte offsets of `lo` and of `hi`.
pub proof fn lemma_comments_from_laid_out(text: Seq<char>, lo: int, hi: int)
    requires
        0 <= lo <= hi <= text.len(),
        byte_offset(text, hi) <= usize::MAX,
    ensures
        laid_out(
            comments_from(text, lo, hi),
            text,
            byte_offset(text, lo) as int,
            byte_offset(text, hi) as int,
        ),
    decreases hi - lo,
{
    if lo < hi {
        if text[lo] == '%' {
            lemma_line_end(text, lo + 1, hi);
            let end = line_end(text, lo + 1, hi);
            let comment = comment_tree(text, lo, end);
            let rest = comments_from(text, end, hi);
            lemma_comments_from_laid_out(text, end, hi);
            lemma_byte_offset_increases(text, lo, end);
            lemma_byte_offset_increases(text, end, hi);
            let from = byte_offset(text, lo) as int;
            let mid = byte_offset(text, end) as int;
            let to = byte_offset(text, hi) as int;
            assert(comment.span.start == from && comment.span.end == mid);
            assert(is_boundary(text, from) && is_boundary(text, mid));
            assert(well_formed(comment, text));
            assert(laid_out(seq![comment], text, from, mid));
            lemma_laid_out_concat(seq![comment], rest, text, from, mid, to);
        } else {
            lemma_comments_from_laid_out(text, lo + 1, hi);
            lemma_byte_offset_increases(text, lo, lo + 1);
        }
    }
}

/// The comments between two byte offsets are laid out between them.
pub proof fn lemma_comments_between_laid_out(text: Seq<char>, from: usize, to: usize)
    ensures
        laid_out(comments_between(text, from, to), text, from as int, to as int),
{
    reveal(comments_between);
    if span_ok(text, Span { start: from, end: to }) {
        let lo = char_index(text, from as int);
        let hi = char_index(text, to as int);
        if hi < lo {
            lemma_byte_offset_increases(text, hi, lo);
        }
        lemma_comments_from_laid_out(text, lo, hi);
    }
}

/// Attaching comments keeps a well-formed tree well formed, and leaves the
/// rule and the span of its root as they are.
pub proof fn lemma_attached_well_formed(text: Seq<char>, tree: SyntaxTree)
    requires
        well_formed(tree, text),
    ensures
        well_formed(attached(text, tree), text),
        attached(text, tree).rule == tree.rule,
        attached(text, tree).span == tree.span,
    decreases tree, 1nat,
{
    if reads_children(render_kind(tree.rule)) {
        let n = tree.children.len();
        let before = attached_upto(text, tree, n);
        let last = gap_start(tree, n as int);
        let after = comments_between(text, last, tree.span.end);
        lemma_attached_upto_laid_out(text, tree, n);
        lemma_comments_between_laid_out(text, last, tree.span.end);
        lemma_laid_out_concat(
            before,
            after,
            text,
            tree.span.start as int,
            last as int,
            tree.span.end as int,
        );
    }
}

/// The first `k` children of a well-formed tree, with their comments and the
/// comments before them, are laid out between the start of the tree and the
/// end of the last of them.
pub proof fn lemma_attached_upto_laid_out(text: Seq<char>, tree: SyntaxTree, k: nat)
    requires
        well_formed(tree, text),
        k <= tree.children.len(),
    ensures
        laid_out(
            attached_upto(text, tree, k),
            text,
            tree.span.start as int,
            gap_start(tree, k as int) as int,
        ),
        tree.span.start <= gap_start(tree, k as int) <= tree.span.end,
    decreases tree, 0nat, k,
{
    if k > 0 {
        let child = tree.children[k - 1];
        let from = tree.span.start as int;
        let gap = gap_start(tree, k - 1);
        let earlier = attached_upto(text, tree, (k - 1) as nat);
        let between = comments_between(text, gap, child.span.start);
        lemma_attached_upto_laid_out(text, tree, (k - 1) as nat);
        lemma_comments_between_laid_out(text, gap, child.span.start);
        lemma_attached_well_formed(text, child);
        assert(gap <= child.span.start) by {
            if k > 1 {
                assert(tree.children[k - 2].span.end <= tree.children[k - 1].span.start);
            }
        }
        lemma_laid_out_concat(earlier, between, text, from, gap as int, child.span.start as int);
        let own = seq![attached(text, child)];
        assert(laid_out(own, text, child.span.start as int, child.span.end as int));
        lemma_laid_out_concat(
            earlier + between,
            own,
            text,
            from,
            child.span.start as int,
            child.span.end as int,
        );
    }
}

/// A tree without its comments: every node but those tagged as comments, with
/// its rule, its span and its place among its siblings.
pub open spec fn without_comments(tree: SyntaxTree) -> SyntaxTree
    decreases tree,
{
    SyntaxTree {
        rule: tree.rule,
        span: tree.span,
        children: kept_among(tree.children, tree.children.len()),
    }
}

/// The first `k` trees of `trees` without the comments among and inside them.
pub open spec fn kept_among(trees: Seq<SyntaxTree>, k: nat) -> Seq<SyntaxTree>
    decreases trees, k,
{
    if k == 0 || k > trees.len() {
        Seq::empty()
    } else if trees[k - 1].rule == RuleTag::Comments {
        kept_among(trees, (k - 1) as nat)
    } else {
        kept_among(trees, (k - 1) as nat).push(without_comments(trees[k - 1]))
    }
}

/// What is kept of the first `k` trees depends on these trees alone.
pub proof fn lemma_kept_among_prefix(short: Seq<SyntaxTree>, long: Seq<SyntaxTree>, k: nat)
    requires
        k <= short.len() <= long.len(),
        forall|i: int| 0 <= i < k ==> short[i] == long[i],
    ensures
        kept_among(short, k) == kept_among(long, k),
    decreases k,
{
    if k > 0 {
        lemma_kept_among_prefix(short, long, (k - 1) as nat);
    }
}

/// What is kept of trees listed one after another is what is kept of the
/// first ones followed by what is kept of the others.
pub proof fn lemma_kept_among_concat(first: Seq<SyntaxTree>, second: Seq<SyntaxTree>, k: nat)
    requires
        k <= second.len(),
    ensures
        kept_among(first + second, first.len() + k) == kept_among(first, first.len())
            + kept_among(second, k),
    decreases k,
{
    let all = first + second;
    if k == 0 {
        lemma_kept_among_prefix(first, all, first.len());
        assert(kept_among(first, first.len()) + Seq::<SyntaxTree>::empty() =~= kept_among(
            first,
            first.len(),
        ));
    } else {
        lemma_kept_among_concat(first, second, (k - 1) as nat);
        assert(all[first.len() + k - 1] == second[k - 1]);
        let head = kept_among(first, first.len());
        let rest = kept_among(second, (k - 1) as nat);
        assert((head + rest).push(without_comments(second[k - 1])) =~= head + rest.push(
            without_comments(second[k - 1]),
        ));
    }
}

/// Nothing is kept of trees that are all comments.
pub proof fn lemma_kept_among_comments(trees: Seq<SyntaxTree>, k: nat)
    requires
        k <= trees.len(),
        forall|i: int| 0 <= i < trees.len() ==> (#[trigger] trees[i]).rule == RuleTag::Comments,
    ensures
        kept_among(trees, k).len() == 0,
    decreases k,
{
    if k > 0 {
        lemma_kept_among_comments(trees, (k - 1) as nat);
    }
}

/// What is found among the characters of a text as comments is tagged as
/// comments.
pub proof fn lemma_comments_from_are_comments(text: Seq<char>, lo: int, hi: int)
    ensures
        forall|i: int|
            0 <= i < comments_from(text, lo, hi).len() ==> (#[trigger] comments_from(
                text,
                lo,
                hi,
            )[i]).rule == RuleTag::Comments,
    decreases hi - lo,
{
    if !(lo < 0 || lo >= hi || hi > text.len()) {
        if text[lo] == '%' {
            let end = line_end(text, lo + 1, hi);
            if !(end <= lo || end > hi) {
                lemma_comments_from_are_comments(text, end, hi);
            }
        } else {
            lemma_comments_from_are_comments(text, lo + 1, hi);
        }
    }
}

/// What is found between two byte offsets is tagged as comments.
pub proof fn lemma_comments_between_are_comments(text: Seq<char>, from: usize, to: usize)
    ensures
        forall|i: int|
            0 <= i < comments_between(text, from, to).len() ==> (#[trigger] comments_between(
                text,
                from,
                to,
            )[i]).rule == RuleTag::Comments,
{
    reveal(comments_between);
    if span_ok(text, Span { start: from, end: to }) {
        lemma_comments_from_are_comments(
            text,
            char_index(text, from as int),
            char_index(text, to as int),
        );
    }
}

/// Attaching comments adds comments and nothing else: without its comments a
/// tree with comments attached is the tree it was made from without its
/// comments, so every other node keeps its rule, its span and its place.
pub proof fn lemma_attached_adds_comments_only(text: Seq<char>, tree: SyntaxTree)
    ensures
        without_comments(attached(text, tree)) == without_comments(tree),
    decreases tree, 1nat,
{
    if reads_children(render_kind(tree.rule)) {
        let n = tree.children.len();
        let before = attached_upto(text, tree, n);
        let after = comments_between(text, gap_start(tree, n as int), tree.span.end);
        lemma_attached_upto_adds_comments_only(text, tree, n);
        lemma_comments_between_are_comments(text, gap_start(tree, n as int), tree.span.end);
        lemma_kept_among_comments(after, after.len());
        lemma_kept_among_concat(before, after, after.len());
        assert(kept_among(before, before.len()) + kept_among(after, after.len()) =~= kept_among(
            before,
            before.len(),
        ));
    }
}

/// Without their comments, the first `k` children with comments attached are
/// the first `k` children without theirs.
pub proof fn lemma_attached_upto_adds_comments_only(text: Seq<char>, tree: SyntaxTree, k: nat)
    requires
        k <= tree.children.len(),
    ensures
        kept_among(attached_upto(text, tree, k), attached_upto(text, tree, k).len()) == kept_among(
            tree.children,
            k,
        ),
    decreases tree, 0nat, k,
{
    if k > 0 {
        let child = tree.children[k - 1];
        let earlier = attached_upto(text, tree, (k - 1) as nat);
        let between = comments_between(text, gap_start(tree, k - 1), child.span.start);
        let own = seq![attached(text, child)];
        lemma_attached_upto_adds_comments_only(text, tree, (k - 1) as nat);
        lemma_comments_between_are_comments(text, gap_start(tree, k - 1), child.span.start);
        lemma_kept_among_comments(between, between.len());
        lemma_attached_adds_comments_only(text, child);
        lemma_kept_among_concat(earlier, between, between.len());
        lemma_kept_among_concat(earlier + between, own, 1);
        assert(kept_among(own, 0).len() == 0);
        assert(attached(text, child).rule == child.rule);
        assert(kept_among(earlier, earlier.len()) + kept_among(between, between.len())
            =~= kept_among(earlier, earlier.len()));
        if child.rule != RuleTag::Comments {
            assert(kept_among(own, 1) =~= seq![without_comments(attached(text, child))]);
            assert(kept_among(earlier, earlier.len()) + seq![without_comments(child)]
                =~= kept_among(earlier, earlier.len()).push(without_comments(child)));
        } else {
            assert(kept_among(earlier, earlier.len()) + Seq::<SyntaxTree>::empty() =~= kept_among(
                earlier,
                earlier.len(),
            ));
        }
    }
}

/// Copies a tree.
pub fn copy_tree(node: &SyntaxNode) -> (out: SyntaxNode)
    ensures
        out@ == node@,
    decreases node,
{
    let mut children: Vec<SyntaxNode> = Vec::new();
    let mut i: usize = 0;
    while i < node.children.len()
        invariant
            i <= node.children.len(),
            children@.len() == i,
            trees_of(children@) == trees_of(node.children@).take(i as int),
        decreases node.children.len() - i,
    {
        let child = copy_tree(&node.children[i]);
        proof {
            assert(trees_of(children@.push(child)) =~= trees_of(children@).push(child@));
            assert(trees_of(children@).push(child@) =~= trees_of(node.children@).take(i + 1));
        }
        children.push(child);
        i += 1;
    }
    assert(trees_of(node.children@).take(i as int) =~= trees_of(node.children@));
    SyntaxNode { rule: node.rule, span: node.span, children }
}

/// Appends to `found` the comments in the piece of the source between the
/// byte offsets `from` and `to`.
pub fn comments_in(source: &SourceText, from: usize, to: usize, found: &mut Vec<SyntaxNode>)
    ensures
        trees_of(final(found)@) == trees_of(old(found)@) + comments_between(source@, from, to),
{
    proof {
        reveal(comments_between);
    }
    let range = source.char_range(Span { start: from, end: to });
    let (lo, hi) = match range {
        Some(range) => range,
        None => {
            assert(trees_of(found@) + Seq::<SyntaxTree>::empty() =~= trees_of(found@));
            return ;
        },
    };
    let mut cur: usize = lo;
    assert(trees_of(found@) + comments_from(source@, cur as int, hi as int) == trees_of(
        old(found)@,
    ) + comments_from(source@, lo as int, hi as int));
    while cur < hi
        invariant
            lo <= cur <= hi <= source@.len(),
            trees_of(found@) + comments_from(source@, cur as int, hi as int) == trees_of(
                old(found)@,
            ) + comments_from(source@, lo as int, hi as int),
        decreases hi - cur,
    {
        if source.char_at(cur) == '%' {
            let mut end: usize = cur + 1;
            while end < hi && !line_break(source.char_at(end))
                invariant
                    cur < end <= hi <= source@.len(),
                    line_end(source@, end as int, hi as int) == line_end(
                        source@,
                        cur + 1,
                        hi as int,
                    ),
                decreases hi - end,
            {
                end += 1;
            }
            let start_byte = source.offset_of(cur);
            let end_byte = source.offset_of(end);
            let comment = SyntaxNode::leaf(RuleTag::Comments, start_byte, end_byte);
            proof {
                let rest = comments_from(source@, end as int, hi as int);
                assert(comment@ == comment_tree(source@, cur as int, end as int));
                assert(comments_from(source@, cur as int, hi as int) == seq![comment@] + rest);
                assert(trees_of(found@.push(comment)) =~= trees_of(found@).push(comment@));
                assert(trees_of(found@).push(comment@) + rest =~= trees_of(found@) + (seq![
                    comment@,
                ] + rest));
            }
            found.push(comment);
            cur = end;
        } else {
            cur += 1;
        }
    }
    proof {
        assert(trees_of(found@) + Seq::<SyntaxTree>::empty() =~= trees_of(found@));
    }
}

/// Tells whether `c` ends a line.
pub fn line_break(c: char) -> (b: bool)
    ensures
        b == is_line_break(c),
{
    c == '\n' || c == '\r'
}

/// Attaches to the tree under `node` the comments of the source.
pub fn attach_comments(source: &SourceText, node: &SyntaxNode) -> (out: SyntaxNode)
    ensures
        out@ == attached(source@, node@),
    decreases node,
{
    if !needs_children(render_kind_of(node.rule)) {
        return copy_tree(node);
    }
    let mut children: Vec<SyntaxNode> = Vec::new();
    let mut gap: usize = node.span.start;
    let mut i: usize = 0;
    assert(trees_of(children@) =~= attached_upto(source@, node@, 0));
    while i < node.children.len()
        invariant
            i <= node.children.len(),
            gap == gap_start(node@, i as int),
            trees_of(children@) == attached_upto(source@, node@, i as nat),
        decreases node.children.len() - i,
    {
        let child = &node.children[i];
        comments_in(source, gap, child.span.start, &mut children);
        let with_comments = attach_comments(source, child);
        proof {
            assert(trees_of(children@.push(with_comments)) =~= trees_of(children@).push(
                with_comments@,
            ));
            assert(node@.children[i as int] == child@);
        }
        children.push(with_comments);
        gap = child.span.end;
        i += 1;
    }
    comments_in(source, gap, node.span.end, &mut children);
    SyntaxNode { rule: node.rule, span: node.span, children }
}

} // verus!
