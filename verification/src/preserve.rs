//! Literal content is preserved: the tokens of a tree stand in its rendering,
//! each exactly as it stands in the source, and in source order.
use crate::attach::{
    attached, attached_upto, comments_between, gap_start, lemma_comments_between_are_comments,
};
use crate::document::{
    document, lemma_without_final_newlines, with_final_newline, without_final_newlines,
};
use crate::indent::{indent_text, newline_at};
use crate::join::{
    breaks_binding, ends_in_space, is_inline_piece, join_finish, join_kind, join_step,
    preamble_close, separator, JoinKind,
};
use crate::options::OptionData;
use crate::render::{content_depth, folded, joined, rendered};
use crate::source::span_text;
use crate::text::{
    is_blank, lemma_trim_end, lemma_trim_start, trailing_space, trim, trim_end, trim_start,
};
use crate::tree::{RuleTag, SyntaxTree};
use crate::unicode::{is_space, utf8_len};
use crate::words::{spelling, ReservedWord};
use crate::wrap::{
    bracket_tail, closing, is_hollow, is_stacked, item_close, opening, reads_children,
    render_kind, wrap, RenderKind,
};
use vstd::prelude::*;

verus! {

/// `part` stands in `whole` from position `at` on.
pub open spec fn occurs_at(part: Seq<char>, whole: Seq<char>, at: int) -> bool {
    0 <= at && at + part.len() <= whole.len() && whole.subrange(at, at + part.len()) == part
}

/// A text that holds something and neither opens nor closes with white space.
pub open spec fn is_solid(part: Seq<char>) -> bool {
    part.len() > 0 && !is_space(part[0]) && !is_space(part.last())
}

/// Every text of `parts` is solid.
pub open spec fn all_solid(parts: Seq<Seq<char>>) -> bool {
    forall|i: int| 0 <= i < parts.len() ==> is_solid(#[trigger] parts[i])
}

/// The texts of `parts` stand in `whole` at the positions `at`, one after
/// another: each as it is, and each ending before the next one starts.
pub open spec fn placed(parts: Seq<Seq<char>>, whole: Seq<char>, at: Seq<int>) -> bool {
    &&& at.len() == parts.len()
    &&& forall|i: int| 0 <= i < parts.len() ==> occurs_at(parts[i], whole, #[trigger] at[i])
    &&& forall|i: int, j: int|
        0 <= i < j < parts.len() ==> #[trigger] at[i] + parts[i].len() <= #[trigger] at[j]
}

/// The texts of `parts` stand in `whole` unchanged and in order.
pub open spec fn in_order(parts: Seq<Seq<char>>, whole: Seq<char>) -> bool {
    exists|at: Seq<int>| placed(parts, whole, at)
}

/// The tokens of a tree, in source order: the source of every node that is
/// written out verbatim, where it is solid, as far as the node is reached
/// through nodes whose rendering reads their children.
pub open spec fn tokens(text: Seq<char>, tree: SyntaxTree) -> Seq<Seq<char>>
    decreases tree,
{
    let kind = render_kind(tree.rule);
    if kind == RenderKind::Verbatim {
        if is_solid(span_text(text, tree.span)) {
            seq![span_text(text, tree.span)]
        } else {
            Seq::empty()
        }
    } else if reads_children(kind) {
        tokens_among(text, tree.children, tree.children.len())
    } else {
        Seq::empty()
    }
}

/// The tokens of the first `k` trees of `trees`.
pub open spec fn tokens_among(text: Seq<char>, trees: Seq<SyntaxTree>, k: nat) -> Seq<Seq<char>>
    decreases trees, k,
{
    if k == 0 || k > trees.len() {
        Seq::empty()
    } else {
        tokens_among(text, trees, (k - 1) as nat) + tokens(text, trees[k - 1])
    }
}

/// Tokens are solid.
pub proof fn lemma_tokens_solid(text: Seq<char>, tree: SyntaxTree)
    ensures
        all_solid(tokens(text, tree)),
    decreases tree,
{
    let kind = render_kind(tree.rule);
    if kind != RenderKind::Verbatim && reads_children(kind) {
        lemma_tokens_among_solid(text, tree.children, tree.children.len());
    }
}

/// The tokens of the first `k` trees are solid.
pub proof fn lemma_tokens_among_solid(text: Seq<char>, trees: Seq<SyntaxTree>, k: nat)
    ensures
        all_solid(tokens_among(text, trees, k)),
    decreases trees, k,
{
    if 0 < k <= trees.len() {
        lemma_tokens_among_solid(text, trees, (k - 1) as nat);
        lemma_tokens_solid(text, trees[k - 1]);
    }
}

/// What stands in a text stands in every text built around it, moved by the
/// length of what was put in front.
pub proof fn lemma_placed_inside(
    parts: Seq<Seq<char>>,
    core: Seq<char>,
    at: Seq<int>,
    pre: Seq<char>,
    post: Seq<char>,
) -> (moved: Seq<int>)
    requires
        placed(parts, core, at),
    ensures
        placed(parts, pre + core + post, moved),
        forall|i: int|
            0 <= i < parts.len() ==> pre.len() <= #[trigger] moved[i] && moved[i] + parts[i].len()
                <= pre.len() + core.len(),
{
    let whole = pre + core + post;
    let moved = Seq::new(at.len(), |i: int| at[i] + pre.len());
    assert forall|i: int| 0 <= i < parts.len() implies occurs_at(
        parts[i],
        whole,
        #[trigger] moved[i],
    ) by {
        assert(occurs_at(parts[i], core, at[i]));
        assert(whole.subrange(moved[i], moved[i] + parts[i].len()) =~= core.subrange(
            at[i],
            at[i] + parts[i].len(),
        ));
    }
    assert forall|i: int, j: int| 0 <= i < j < parts.len() implies #[trigger] moved[i]
        + parts[i].len() <= #[trigger] moved[j] by {
        assert(at[i] + parts[i].len() <= at[j]);
    }
    moved
}

/// Texts that stand in order before a cut, followed by texts that stand in
/// order after it, stand in order together.
pub proof fn lemma_placed_both(
    first: Seq<Seq<char>>,
    second: Seq<Seq<char>>,
    whole: Seq<char>,
    at_first: Seq<int>,
    at_second: Seq<int>,
    cut: int,
)
    requires
        placed(first, whole, at_first),
        placed(second, whole, at_second),
        forall|i: int| 0 <= i < first.len() ==> #[trigger] at_first[i] + first[i].len() <= cut,
        forall|i: int| 0 <= i < second.len() ==> cut <= #[trigger] at_second[i],
    ensures
        placed(first + second, whole, at_first + at_second),
{
    let parts = first + second;
    let at = at_first + at_second;
    assert forall|i: int| 0 <= i < parts.len() implies occurs_at(parts[i], whole, #[trigger] at[i]) by {
        if i < first.len() {
            assert(at[i] == at_first[i] && parts[i] == first[i]);
        } else {
            assert(at[i] == at_second[i - first.len()] && parts[i] == second[i - first.len()]);
        }
    }
    assert forall|i: int, j: int| 0 <= i < j < parts.len() implies #[trigger] at[i]
        + parts[i].len() <= #[trigger] at[j] by {
        if j < first.len() {
            assert(at[i] == at_first[i] && parts[i] == first[i]);
            assert(at[j] == at_first[j]);
        } else if i >= first.len() {
            assert(at[i] == at_second[i - first.len()] && parts[i] == second[i - first.len()]);
            assert(at[j] == at_second[j - first.len()]);
        } else {
            assert(at[i] == at_first[i] && parts[i] == first[i]);
            assert(at[j] == at_second[j - first.len()]);
        }
    }
}

/// Solid texts that stand in a text stand in it still when its trailing white
/// space is dropped.
pub proof fn lemma_placed_trim_end(parts: Seq<Seq<char>>, whole: Seq<char>, at: Seq<int>)
    requires
        all_solid(parts),
        placed(parts, whole, at),
    ensures
        placed(parts, trim_end(whole), at),
{
    lemma_trim_end(whole);
    let kept = trim_end(whole);
    assert forall|i: int| 0 <= i < parts.len() implies occurs_at(parts[i], kept, #[trigger] at[i]) by {
        let part = parts[i];
        assert(occurs_at(part, whole, at[i]));
        let last = at[i] + part.len() - 1;
        assert(whole.subrange(at[i], at[i] + part.len())[part.len() - 1] == whole[last]);
        assert(!is_space(whole[last]));
        assert(last < kept.len());
        assert(kept.subrange(at[i], at[i] + part.len()) =~= whole.subrange(
            at[i],
            at[i] + part.len(),
        ));
    }
}

/// Solid texts that stand in a text stand in it still when its leading white
/// space is dropped, moved by the length of what was dropped.
pub proof fn lemma_placed_trim_start(parts: Seq<Seq<char>>, whole: Seq<char>, at: Seq<int>) -> (moved:
    Seq<int>)
    requires
        all_solid(parts),
        placed(parts, whole, at),
    ensures
        placed(parts, trim_start(whole), moved),
{
    lemma_trim_start(whole);
    let kept = trim_start(whole);
    let dropped = whole.len() - kept.len();
    let moved = Seq::new(at.len(), |i: int| at[i] - dropped);
    assert forall|i: int| 0 <= i < parts.len() implies occurs_at(parts[i], kept, #[trigger] moved[i]) by {
        let part = parts[i];
        assert(occurs_at(part, whole, at[i]));
        assert(whole.subrange(at[i], at[i] + part.len())[0] == whole[at[i]]);
        assert(!is_space(whole[at[i]]));
        assert(at[i] >= dropped);
        assert(kept.subrange(moved[i], moved[i] + part.len()) =~= whole.subrange(
            at[i],
            at[i] + part.len(),
        ));
    }
    assert forall|i: int, j: int| 0 <= i < j < parts.len() implies #[trigger] moved[i]
        + parts[i].len() <= #[trigger] moved[j] by {
        assert(at[i] + parts[i].len() <= at[j]);
    }
    moved
}

/// Solid texts that stand in a text stand in it still when it is trimmed.
pub proof fn lemma_placed_trim(parts: Seq<Seq<char>>, whole: Seq<char>, at: Seq<int>) -> (moved: Seq<
    int,
>)
    requires
        all_solid(parts),
        placed(parts, whole, at),
    ensures
        placed(parts, trim(whole), moved),
{
    let moved = lemma_placed_trim_start(parts, whole, at);
    lemma_placed_trim_end(parts, trim_start(whole), moved);
    moved
}

/// One more child is joined to the text gathered so far: the texts placed in
/// that text, followed by the texts placed in the child's rendering, are
/// placed in every text that is made of what trimming leaves of the one, a
/// separator, what trimming leaves of the other, and a closing part.
pub proof fn lemma_placed_joined(
    first: Seq<Seq<char>>,
    second: Seq<Seq<char>>,
    acc: Seq<char>,
    s: Seq<char>,
    deeper: Seq<char>,
    kept_acc: Seq<char>,
    mid: Seq<char>,
    kept_s: Seq<char>,
    post: Seq<char>,
    at_first: Seq<int>,
    at_s: Seq<int>,
    at_deeper: Seq<int>,
) -> (at: Seq<int>)
    requires
        all_solid(first),
        all_solid(second),
        placed(first, acc, at_first),
        kept_acc == acc || kept_acc == trim_end(acc),
        ((kept_s == s || kept_s == trim(s) || kept_s == trim_start(s)) && placed(second, s, at_s))
            || (kept_s == trim_start(deeper) && placed(second, deeper, at_deeper)),
    ensures
        placed(first + second, kept_acc + mid + kept_s + post, at),
{
    let whole = kept_acc + mid + kept_s + post;
    lemma_placed_trim_end(first, acc, at_first);
    let in_s = if kept_s == trim_start(deeper) && placed(second, deeper, at_deeper) {
        lemma_placed_trim_start(second, deeper, at_deeper)
    } else if kept_s == s {
        at_s
    } else if kept_s == trim(s) {
        lemma_placed_trim(second, s, at_s)
    } else {
        lemma_placed_trim_start(second, s, at_s)
    };
    let none = Seq::<char>::empty();
    let left = lemma_placed_inside(first, kept_acc, at_first, none, mid + kept_s + post);
    assert(none + kept_acc + (mid + kept_s + post) =~= whole);
    let right = lemma_placed_inside(second, kept_s, in_s, kept_acc + mid, post);
    assert((kept_acc + mid) + kept_s + post =~= whole);
    lemma_placed_both(first, second, whole, left, right, kept_acc.len() as int);
    left + right
}

/// A definition takes a value that spans several lines one level deeper than
/// its other children: this holds of child `k` of `tree`, joined at `depth`,
/// when it is such a value.
pub open spec fn joins_deeper(
    text: Seq<char>,
    tree: SyntaxTree,
    depth: nat,
    options: OptionData,
    k: int,
) -> bool {
    join_kind(tree.rule) == JoinKind::Binding && tree.children[k].rule == RuleTag::Expr
        && breaks_binding(rendered(text, tree.children[k], depth, options))
}

/// The depth at which child `k` of `tree` is written out when `tree` is
/// rendered at `depth`.
pub open spec fn child_depth(
    text: Seq<char>,
    tree: SyntaxTree,
    depth: nat,
    options: OptionData,
    k: int,
) -> nat {
    let inner = content_depth(render_kind(tree.rule), depth);
    if joins_deeper(text, tree, inner, options, k) {
        inner + 1
    } else {
        inner
    }
}

/// Joining one more child keeps what stands in the text gathered so far and
/// adds what stands in the child, after it: whatever the rule of the node, the
/// solid texts placed in the text gathered from `k` children, followed by
/// those placed in the rendering of child `k`, are placed in the text gathered
/// from `k + 1`. The texts of the child have to stand in the rendering that
/// is joined: one level deeper where the child `joins_deeper`.
pub proof fn lemma_step_places(
    text: Seq<char>,
    tree: SyntaxTree,
    depth: nat,
    options: OptionData,
    k: nat,
    first: Seq<Seq<char>>,
    second: Seq<Seq<char>>,
    at_first: Seq<int>,
    at_s: Seq<int>,
    at_deeper: Seq<int>,
) -> (at: Seq<int>)
    requires
        k < tree.children.len(),
        all_solid(first),
        all_solid(second),
        placed(first, folded(text, tree, depth, options, k).text, at_first),
        joins_deeper(text, tree, depth, options, k as int) ==> placed(
            second,
            rendered(text, tree.children[k as int], depth + 1, options),
            at_deeper,
        ),
        !joins_deeper(text, tree, depth, options, k as int) ==> placed(
            second,
            rendered(text, tree.children[k as int], depth, options),
            at_s,
        ),
    ensures
        placed(first + second, folded(text, tree, depth, options, k + 1).text, at),
{
    let acc = folded(text, tree, depth, options, k);
    let a = acc.text;
    let child = tree.children[k as int];
    let r = child.rule;
    let s = rendered(text, child, depth, options);
    let deeper = rendered(text, child, depth + 1, options);
    let after = folded(text, tree, depth, options, k + 1).text;
    assert(after == join_step(text, tree, depth, options, k as int, acc, s, deeper).text);
    let none = Seq::<char>::empty();
    let width = options.indent_space as nat;
    let newline = newline_at(width, depth);
    let (kept_acc, mid, kept_s, post) = match join_kind(tree.rule) {
        JoinKind::Binding => match r {
            RuleTag::TypeExpr => (a, ": "@, s, none),
            RuleTag::Expr => if breaks_binding(s) {
                (a, " ="@ + newline + indent_text(width, 1), trim_start(deeper), none)
            } else {
                (a, " = "@, s, none)
            },
            RuleTag::Comments => (a, none, s, none),
            _ => (a, " "@, s, none),
        },
        JoinKind::Unary => if r == RuleTag::UnaryOperator || r == RuleTag::Expr {
            (a, "("@, s, ")"@)
        } else {
            (a, none, s, none)
        },
        JoinKind::Lambda => match r {
            RuleTag::Pattern => (a, " "@, s, none),
            RuleTag::Comments => (a, none, s, none),
            _ => (a, " -> "@, s, none),
        },
        JoinKind::RecordUnit => if a.len() == 0 {
            (a, none, s, none)
        } else {
            match r {
                RuleTag::VarPtn => (a, " "@, s, none),
                RuleTag::Expr => (a, " = "@, s, none),
                _ => (a, none, s, none),
            }
        },
        JoinKind::TypeRecordUnit => if a.len() == 0 {
            (a, none, s, none)
        } else {
            match r {
                RuleTag::Var => (a, " "@, s, none),
                RuleTag::TypeExpr => (a, ": "@, s, none),
                _ => (a, none, s, none),
            }
        },
        JoinKind::TypeApplication => {
            let gap = if a.len() == 0 {
                none
            } else {
                " "@
            };
            if r == RuleTag::TypeExpr {
                (a, gap + "("@, s, ")"@)
            } else {
                (a, gap, s, none)
            }
        },
        JoinKind::Application => if k > 0 && acc.mark {
            (a, " "@, s, none)
        } else {
            (a, none, s, none)
        },
        JoinKind::Bind => if a.len() == 0 {
            (a, none, s, none)
        } else if r == RuleTag::Expr {
            if a.contains('\n') {
                (trim_end(a), " in"@ + newline, trim_start(s), none)
            } else {
                (a, " in "@, s, none)
            }
        } else {
            (a, none, s, none)
        },
        JoinKind::TypeChain => if a.len() == 0 {
            (a, none, s, none)
        } else {
            match r {
                RuleTag::TypeOptional => (a, " ?-> "@, s, none),
                RuleTag::TypeProd => (a, " -> "@, s, none),
                RuleTag::Comments => (a, none, s, none),
                _ => (a, " "@, s, none),
            }
        },
        JoinKind::Module => match r {
            RuleTag::ModuleName => (a, " "@, s, none),
            RuleTag::SigStmt => (a, ": "@, s, none),
            RuleTag::StructStmt => (a, " = "@, s, none),
            _ => (a, none, s, none),
        },
        JoinKind::Members => if r == RuleTag::Comments || a.len() == 0 || spelling(
            ReservedWord::In,
        ).is_suffix_of(a) {
            (a, none, s, none)
        } else {
            (a, "\n"@, s, none)
        },
        JoinKind::Inline => inline_parts(
            text,
            tree.children,
            k as int,
            a,
            s,
            newline,
            options.row_length as nat,
        ),
        JoinKind::Preamble => if r == RuleTag::Comments {
            (a, none, s, none)
        } else if a.len() == 0 || acc.mark || trim(s).len() == 0 {
            (a, none, trim(s), none)
        } else {
            (a, "\n\n"@, trim(s), none)
        },
        JoinKind::Plain => {
            let close = if tree.rule == RuleTag::ProgramSaty && r == RuleTag::Preamble {
                preamble_close()
            } else {
                none
            };
            if acc.mark || a.len() == 0 || s.len() == 0 {
                (a, none, s, close)
            } else {
                (a, separator(tree.rule, newline), s, close)
            }
        },
    };
    if join_kind(tree.rule) == JoinKind::Application && k == 0 {
        assert(a.len() == 0);
    }
    assert(after =~= kept_acc + mid + kept_s + post);
    lemma_placed_joined(
        first,
        second,
        a,
        s,
        deeper,
        kept_acc,
        mid,
        kept_s,
        post,
        at_first,
        at_s,
        at_deeper,
    )
}

/// The parts of which a run of inline text is made when child `i` of `kids`
/// joins it: what is kept of the text gathered so far, the separator, what is
/// kept of the child's rendering, and nothing after it.
pub open spec fn inline_parts(
    text: Seq<char>,
    kids: Seq<SyntaxTree>,
    i: int,
    a: Seq<char>,
    s: Seq<char>,
    newline: Seq<char>,
    row_length: nat,
) -> (Seq<char>, Seq<char>, Seq<char>, Seq<char>) {
    let none = Seq::<char>::empty();
    let cur = kids[i];
    let source = span_text(text, cur.span);
    if a.len() == 0 {
        (a, none, s, none)
    } else if i > 0 && is_inline_piece(kids[i - 1].rule) && cur.rule == RuleTag::InlineCmd {
        let before = span_text(text, kids[i - 1].span);
        if !ends_in_space(before) {
            (a, none, s, none)
        } else if trailing_space(before).contains('\n') || utf8_len(s) > row_length {
            (trim_end(a), newline, s, none)
        } else {
            (a, " "@, s, none)
        }
    } else if i + 1 < kids.len() && is_inline_piece(cur.rule) && !is_inline_piece(kids[i + 1].rule)
        && is_blank(s) {
        if source.contains('\n') {
            (trim_end(a), newline, s, none)
        } else {
            (a, " "@, s, none)
        }
    } else if is_blank(s) {
        (a, none, trim(s), none)
    } else if cur.rule == RuleTag::Comments || (source.len() > 0 && source[0] == '\n') {
        (trim_end(a), newline, s, none)
    } else {
        (a, none, s, none)
    }
}

/// The tokens of the first `k` children of a node stand, unchanged and in
/// source order, in the text gathered from these children.
pub proof fn lemma_fold_places(
    text: Seq<char>,
    tree: SyntaxTree,
    depth: nat,
    options: OptionData,
    k: nat,
) -> (at: Seq<int>)
    requires
        k <= tree.children.len(),
    ensures
        placed(tokens_among(text, tree.children, k), folded(text, tree, depth, options, k).text, at),
    decreases tree, 0nat, k,
{
    if k == 0 {
        Seq::empty()
    } else {
        let child = tree.children[k - 1];
        let at_first = lemma_fold_places(text, tree, depth, options, (k - 1) as nat);
        let at_s = lemma_tokens_placed(text, child, depth, options);
        let at_deeper = lemma_tokens_placed(text, child, depth + 1, options);
        lemma_tokens_among_solid(text, tree.children, (k - 1) as nat);
        lemma_tokens_solid(text, child);
        lemma_step_places(
            text,
            tree,
            depth,
            options,
            (k - 1) as nat,
            tokens_among(text, tree.children, (k - 1) as nat),
            tokens(text, child),
            at_first,
            at_s,
            at_deeper,
        )
    }
}

/// The tokens of a tree stand in its rendering, each exactly as it stands in
/// the source, and in source order, whatever the depth and the options.
pub proof fn lemma_tokens_placed(
    text: Seq<char>,
    tree: SyntaxTree,
    depth: nat,
    options: OptionData,
) -> (at: Seq<int>)
    ensures
        placed(tokens(text, tree), rendered(text, tree, depth, options), at),
    decreases tree, 1nat,
{
    let kind = render_kind(tree.rule);
    let own = span_text(text, tree.span);
    let whole = rendered(text, tree, depth, options);
    if kind == RenderKind::Verbatim {
        if is_solid(own) {
            assert(whole.subrange(0, whole.len() as int) =~= whole);
            seq![0int]
        } else {
            Seq::empty()
        }
    } else if reads_children(kind) {
        let inner = content_depth(kind, depth);
        let parts = tokens_among(text, tree.children, tree.children.len());
        let gathered = folded(text, tree, inner, options, tree.children.len()).text;
        let at_gathered = lemma_fold_places(text, tree, inner, options, tree.children.len());
        lemma_tokens_among_solid(text, tree.children, tree.children.len());
        let at_content = lemma_finish_places(tree.rule, parts, gathered, at_gathered);
        lemma_wrap_places(
            kind,
            parts,
            joined(text, tree, inner, options),
            own,
            options.indent_space as nat,
            depth,
            options.row_length as nat,
            at_content,
        )
    } else {
        Seq::empty()
    }
}

/// What a rule makes of the text joined from its children keeps the tokens
/// that stand in it.
pub proof fn lemma_finish_places(
    rule: RuleTag,
    parts: Seq<Seq<char>>,
    gathered: Seq<char>,
    at: Seq<int>,
) -> (moved: Seq<int>)
    requires
        all_solid(parts),
        placed(parts, gathered, at),
    ensures
        placed(parts, join_finish(rule, gathered), moved),
{
    match join_kind(rule) {
        JoinKind::Module => {
            let trimmed = lemma_placed_trim(parts, gathered, at);
            let head = spelling(ReservedWord::Module) + " "@;
            let moved = lemma_placed_inside(parts, trim(gathered), trimmed, head, Seq::empty());
            assert(head + trim(gathered) + Seq::<char>::empty() =~= join_finish(rule, gathered));
            moved
        },
        JoinKind::Members => {
            lemma_placed_trim_end(parts, gathered, at);
            at
        },
        JoinKind::Inline => lemma_placed_trim(parts, gathered, at),
        _ => at,
    }
}

/// The rendering of a node whose form reads its children keeps the tokens
/// that stand in the text joined from them.
pub proof fn lemma_wrap_places(
    kind: RenderKind,
    parts: Seq<Seq<char>>,
    content: Seq<char>,
    own: Seq<char>,
    width: nat,
    depth: nat,
    row_length: nat,
    at: Seq<int>,
) -> (moved: Seq<int>)
    requires
        reads_children(kind),
        all_solid(parts),
        placed(parts, content, at),
    ensures
        placed(parts, wrap(kind, content, own, width, depth, row_length), moved),
{
    let whole = wrap(kind, content, own, width, depth, row_length);
    let none = Seq::<char>::empty();
    let newline = newline_at(width, depth);
    if kind == RenderKind::Root {
        lemma_placed_trim_start(parts, content, at)
    } else {
        let trimmed = lemma_placed_trim(parts, content, at);
        let (head, kept, tail) = match kind {
            RenderKind::Headers => if content.len() > 0 {
                (none, content, "\n"@)
            } else {
                (none, content, none)
            },
            RenderKind::Require => ("@require: "@, content, "\n"@),
            RenderKind::Import => ("@import: "@, content, "\n"@),
            RenderKind::Prefixed(word) => (newline + spelling(word), content, none),
            RenderKind::Container(word) => (
                spelling(word),
                content,
                newline + spelling(ReservedWord::End),
            ),
            RenderKind::Bracketed(b) => {
                let close = closing(b, own) + bracket_tail(b, own);
                if is_hollow(b, content) {
                    (opening(b, own), trim(content), close)
                } else if is_stacked(b, content, own, row_length) {
                    (
                        opening(b, own) + newline_at(width, depth + 1),
                        content,
                        item_close(b, content) + newline + close,
                    )
                } else {
                    (opening(b, own) + " "@, content, " "@ + close)
                }
            },
            RenderKind::ExprArgument => if "("@.is_prefix_of(own) {
                ("("@, content, ")"@)
            } else {
                (none, content, none)
            },
            RenderKind::Terminated => if ";"@.is_suffix_of(own) {
                (none, content, ";"@)
            } else {
                (none, content, none)
            },
            _ => (none, content, none),
        };
        if kind matches RenderKind::Bracketed(b) && is_hollow(b, content) {
            if content.len() == 0 {
                assert(trim(content) =~= content);
            }
            assert(trim(content).len() == 0);
        }
        assert(whole =~= head + kept + tail);
        if kept == content {
            lemma_placed_inside(parts, content, at, head, tail)
        } else {
            lemma_placed_inside(parts, trim(content), trimmed, head, tail)
        }
    }
}

/// Literal content is preserved. The tokens of a tree are the identifiers,
/// constants, operators, names and other pieces of source that are written
/// out verbatim, as far as they are solid and are reached through nodes whose
/// rendering reads their children. Each of them stands in the rendering of
/// the tree exactly as it stands in the source, and they stand there in
/// source order.
pub proof fn lemma_literal_content_preserved(
    text: Seq<char>,
    tree: SyntaxTree,
    depth: nat,
    options: OptionData,
)
    ensures
        in_order(tokens(text, tree), rendered(text, tree, depth, options)),
{
    let at = lemma_tokens_placed(text, tree, depth, options);
}

/// The tokens of trees listed one after another are the tokens of the first
/// ones followed by the tokens of the others.
pub proof fn lemma_tokens_among_concat(
    text: Seq<char>,
    first: Seq<SyntaxTree>,
    second: Seq<SyntaxTree>,
    k: nat,
)
    requires
        k <= second.len(),
    ensures
        tokens_among(text, first + second, first.len() + k) == tokens_among(
            text,
            first,
            first.len(),
        ) + tokens_among(text, second, k),
    decreases k, first.len(),
{
    let all = first + second;
    if k == 0 {
        if first.len() > 0 {
            let n = (first.len() - 1) as nat;
            lemma_tokens_among_prefix(text, first, all, n);
            lemma_tokens_among_prefix(text, first, first, n);
            assert(all[n as int] == first[n as int]);
        }
        assert(tokens_among(text, first, first.len()) + Seq::<Seq<char>>::empty()
            =~= tokens_among(text, first, first.len()));
    } else {
        lemma_tokens_among_concat(text, first, second, (k - 1) as nat);
        assert(all[first.len() + k - 1] == second[k - 1]);
        assert(tokens_among(text, first, first.len()) + tokens_among(text, second, (k - 1) as nat)
            + tokens(text, second[k - 1]) =~= tokens_among(text, first, first.len()) + (
        tokens_among(text, second, (k - 1) as nat) + tokens(text, second[k - 1])));
    }
}

/// The tokens of the first `k` trees depend on these trees alone.
pub proof fn lemma_tokens_among_prefix(
    text: Seq<char>,
    short: Seq<SyntaxTree>,
    long: Seq<SyntaxTree>,
    k: nat,
)
    requires
        k <= short.len() <= long.len(),
        forall|i: int| 0 <= i < k ==> short[i] == long[i],
    ensures
        tokens_among(text, short, k) == tokens_among(text, long, k),
    decreases k,
{
    if k > 0 {
        lemma_tokens_among_prefix(text, short, long, (k - 1) as nat);
    }
}

/// Comments are no tokens.
pub proof fn lemma_comments_hold_no_tokens(text: Seq<char>, trees: Seq<SyntaxTree>, k: nat)
    requires
        k <= trees.len(),
        forall|i: int| 0 <= i < trees.len() ==> (#[trigger] trees[i]).rule == RuleTag::Comments,
    ensures
        tokens_among(text, trees, k).len() == 0,
    decreases k,
{
    if k > 0 {
        lemma_comments_hold_no_tokens(text, trees, (k - 1) as nat);
        assert(tokens(text, trees[k - 1]).len() == 0);
    }
}

/// The comments between two byte offsets hold no tokens.
pub proof fn lemma_comments_between_hold_no_tokens(text: Seq<char>, from: usize, to: usize)
    ensures
        tokens_among(
            text,
            comments_between(text, from, to),
            comments_between(text, from, to).len(),
        ).len() == 0,
{
    let found = comments_between(text, from, to);
    lemma_comments_between_are_comments(text, from, to);
    lemma_comments_hold_no_tokens(text, found, found.len());
}

/// Attaching comments leaves the tokens of a tree as they are.
pub proof fn lemma_attached_tokens(text: Seq<char>, tree: SyntaxTree)
    ensures
        tokens(text, attached(text, tree)) == tokens(text, tree),
    decreases tree, 1nat,
{
    if reads_children(render_kind(tree.rule)) {
        let n = tree.children.len();
        let before = attached_upto(text, tree, n);
        let after = comments_between(text, gap_start(tree, n as int), tree.span.end);
        lemma_attached_upto_tokens(text, tree, n);
        lemma_comments_between_hold_no_tokens(text, gap_start(tree, n as int), tree.span.end);
        lemma_tokens_among_concat(text, before, after, after.len());
        assert(tokens_among(text, before, before.len()) + tokens_among(text, after, after.len())
            =~= tokens_among(text, before, before.len()));
    }
}

/// The first `k` children with their comments hold the tokens of the first
/// `k` children.
pub proof fn lemma_attached_upto_tokens(text: Seq<char>, tree: SyntaxTree, k: nat)
    requires
        k <= tree.children.len(),
    ensures
        tokens_among(text, attached_upto(text, tree, k), attached_upto(text, tree, k).len())
            == tokens_among(text, tree.children, k),
    decreases tree, 0nat, k,
{
    if k > 0 {
        let child = tree.children[k - 1];
        let earlier = attached_upto(text, tree, (k - 1) as nat);
        let between = comments_between(text, gap_start(tree, k - 1), child.span.start);
        let own = seq![attached(text, child)];
        lemma_attached_upto_tokens(text, tree, (k - 1) as nat);
        lemma_comments_between_hold_no_tokens(text, gap_start(tree, k - 1), child.span.start);
        lemma_attached_tokens(text, child);
        lemma_tokens_among_concat(text, earlier, between, between.len());
        lemma_tokens_among_concat(text, earlier + between, own, 1);
        assert(tokens_among(text, own, 1) =~= tokens(text, attached(text, child))) by {
            assert(tokens_among(text, own, 0).len() == 0);
        }
        assert(tokens_among(text, earlier, earlier.len()) + tokens_among(
            text,
            between,
            between.len(),
        ) =~= tokens_among(text, earlier, earlier.len()));
    }
}

/// Literal content is preserved from the source to the formatted document:
/// the tokens of the parsed tree stand in the document, each exactly as it
/// stands in the source, and in source order.
pub proof fn lemma_document_preserves_tokens(
    text: Seq<char>,
    tree: SyntaxTree,
    options: OptionData,
)
    ensures
        in_order(tokens(text, tree), document(text, tree, options)),
{
    let whole = attached(text, tree);
    lemma_attached_tokens(text, tree);
    lemma_tokens_solid(text, tree);
    let at = lemma_tokens_placed(text, whole, 0, options);
    lemma_closing_keeps(tokens(text, tree), rendered(text, whole, 0, options), at);
}

/// Solid texts that stand in a text stand in it still when it is closed with
/// one line feed.
pub proof fn lemma_closing_keeps(parts: Seq<Seq<char>>, body: Seq<char>, at: Seq<int>)
    requires
        all_solid(parts),
        placed(parts, body, at),
    ensures
        placed(parts, with_final_newline(body), at),
{
    lemma_without_final_newlines(body);
    let kept = without_final_newlines(body);
    let closed = with_final_newline(body);
    assert forall|i: int| 0 <= i < parts.len() implies occurs_at(parts[i], closed, #[trigger] at[i]) by {
        let part = parts[i];
        assert(occurs_at(part, body, at[i]));
        let last = at[i] + part.len() - 1;
        assert(body.subrange(at[i], at[i] + part.len())[part.len() - 1] == body[last]);
        assert(body[last] != '\n');
        assert(last < kept.len());
        assert(closed.subrange(at[i], at[i] + part.len()) =~= body.subrange(
            at[i],
            at[i] + part.len(),
        ));
    }
}

/// What stands in the text gathered from some children of a node stands in
/// the text gathered from more of them, in the same order.
pub proof fn lemma_later_children_keep(
    text: Seq<char>,
    tree: SyntaxTree,
    depth: nat,
    options: OptionData,
    k: nat,
    m: nat,
    parts: Seq<Seq<char>>,
    at: Seq<int>,
) -> (moved: Seq<int>)
    requires
        k <= m <= tree.children.len(),
        all_solid(parts),
        placed(parts, folded(text, tree, depth, options, k).text, at),
    ensures
        placed(parts, folded(text, tree, depth, options, m).text, moved),
    decreases m - k,
{
    if k == m {
        at
    } else {
        let so_far = lemma_later_children_keep(
            text,
            tree,
            depth,
            options,
            k,
            (m - 1) as nat,
            parts,
            at,
        );
        let none = Seq::<Seq<char>>::empty();
        let nowhere = Seq::<int>::empty();
        let moved = lemma_step_places(
            text,
            tree,
            depth,
            options,
            (m - 1) as nat,
            parts,
            none,
            so_far,
            nowhere,
            nowhere,
        );
        assert(parts + none =~= parts);
        moved
    }
}

/// What stands in the rendering of a child stands in the rendering of its
/// parent: solid texts placed in the rendering of child `j` of a node whose
/// form reads its children, at the depth at which the node writes that child
/// out, are placed in the rendering of the node.
pub proof fn lemma_parent_keeps(
    text: Seq<char>,
    tree: SyntaxTree,
    depth: nat,
    options: OptionData,
    j: nat,
    parts: Seq<Seq<char>>,
    at: Seq<int>,
) -> (moved: Seq<int>)
    requires
        reads_children(render_kind(tree.rule)),
        j < tree.children.len(),
        all_solid(parts),
        placed(
            parts,
            rendered(
                text,
                tree.children[j as int],
                child_depth(text, tree, depth, options, j as int),
                options,
            ),
            at,
        ),
    ensures
        placed(parts, rendered(text, tree, depth, options), moved),
{
    let in_all = lemma_child_in_gathered(text, tree, depth, options, j, parts, at);
    lemma_rendering_keeps(text, tree, depth, options, parts, in_all)
}

/// What stands in the rendering of a child stands in the text gathered from
/// all children of its parent.
pub proof fn lemma_child_in_gathered(
    text: Seq<char>,
    tree: SyntaxTree,
    depth: nat,
    options: OptionData,
    j: nat,
    parts: Seq<Seq<char>>,
    at: Seq<int>,
) -> (moved: Seq<int>)
    requires
        j < tree.children.len(),
        all_solid(parts),
        placed(
            parts,
            rendered(
                text,
                tree.children[j as int],
                child_depth(text, tree, depth, options, j as int),
                options,
            ),
            at,
        ),
    ensures
        placed(
            parts,
            folded(
                text,
                tree,
                content_depth(render_kind(tree.rule), depth),
                options,
                tree.children.len(),
            ).text,
            moved,
        ),
{
    let kind = render_kind(tree.rule);
    let inner = content_depth(kind, depth);
    let none = Seq::<Seq<char>>::empty();
    let nowhere = Seq::<int>::empty();
    let joined_in = lemma_step_places(text, tree, inner, options, j, none, parts, nowhere, at, at);
    assert(none + parts =~= parts);
    lemma_later_children_keep(
        text,
        tree,
        inner,
        options,
        j + 1,
        tree.children.len(),
        parts,
        joined_in,
    )
}

/// What stands in the text gathered from all children of a node stands in
/// the rendering of the node, where its form reads its children.
pub proof fn lemma_rendering_keeps(
    text: Seq<char>,
    tree: SyntaxTree,
    depth: nat,
    options: OptionData,
    parts: Seq<Seq<char>>,
    at: Seq<int>,
) -> (moved: Seq<int>)
    requires
        reads_children(render_kind(tree.rule)),
        all_solid(parts),
        placed(
            parts,
            folded(
                text,
                tree,
                content_depth(render_kind(tree.rule), depth),
                options,
                tree.children.len(),
            ).text,
            at,
        ),
    ensures
        placed(parts, rendered(text, tree, depth, options), moved),
{
    let kind = render_kind(tree.rule);
    let inner = content_depth(kind, depth);
    let gathered = folded(text, tree, inner, options, tree.children.len()).text;
    let in_content = lemma_finish_places(tree.rule, parts, gathered, at);
    lemma_wrap_places(
        kind,
        parts,
        joined(text, tree, inner, options),
        span_text(text, tree.span),
        options.indent_space as nat,
        depth,
        options.row_length as nat,
        in_content,
    )
}

} // verus!
