//! Rendering a syntax tree: a node is rendered from the text joined from its
//! children, and that text is joined from the renderings of the children.
use crate::indent::{deeper, indent_chars, indent_text, newline_at, newline_with};
use crate::join::{
    binding_breaks, finish_join, join_application, join_bind, join_binding, join_binding_below,
    join_finish, join_inline, join_kind, join_kind_of, join_lambda, join_member, join_module,
    join_plain, join_record_unit, join_start, join_statement, join_step, join_type_application,
    join_type_chain, join_type_record_unit, join_unary, separator_of, JoinKind, Joined,
};
use crate::options::OptionData;
use crate::source::{span_text, SourceText};
use crate::text::append_str;
use crate::tree::{RuleTag, SyntaxNode, SyntaxTree};
use crate::words::ReservedWord;
use crate::wrap::{
    deepens, lemma_wrap_reads, needs_children, needs_source, opens_level, render_kind,
    render_kind_of, wrap, wrap_of, RenderKind,
};
use vstd::prelude::*;

verus! {

/// The depth at which the children of a node at `depth` are joined: one level
/// deeper where the node's form opens a level.
pub open spec fn content_depth(kind: RenderKind, depth: nat) -> nat {
    if opens_level(kind) {
        depth + 1
    } else {
        depth
    }
}

/// The rendering of `node` at nesting `depth`, with `text` the source that
/// its spans address.
pub open spec fn rendered(text: Seq<char>, node: SyntaxTree, depth: nat, options: OptionData) -> Seq<
    char,
>
    decreases node, 2nat, 0nat,
{
    let kind = render_kind(node.rule);
    wrap(
        kind,
        joined(text, node, content_depth(kind, depth), options),
        span_text(text, node.span),
        options.indent_space as nat,
        depth,
        options.row_length as nat,
    )
}

/// The text joined from all children of `node`, each rendered at `depth`.
pub open spec fn joined(text: Seq<char>, node: SyntaxTree, depth: nat, options: OptionData) -> Seq<
    char,
>
    decreases node, 1nat, 0nat,
{
    join_finish(node.rule, folded(text, node, depth, options, node.children.len()).text)
}

/// The text gathered from the first `k` children of `node`.
pub open spec fn folded(
    text: Seq<char>,
    node: SyntaxTree,
    depth: nat,
    options: OptionData,
    k: nat,
) -> Joined
    decreases node, 0nat, k,
{
    if k == 0 || k > node.children.len() {
        join_start(node.rule)
    } else {
        let child = node.children[k - 1];
        join_step(
            text,
            node,
            depth,
            options,
            k - 1,
            folded(text, node, depth, options, (k - 1) as nat),
            rendered(text, child, depth, options),
            rendered(text, child, depth + 1, options),
        )
    }
}

/// Renders `node` at nesting `depth`. `indent` is the indentation of that
/// depth.
pub fn to_string_cst(
    source: &SourceText,
    node: &SyntaxNode,
    indent: &Vec<char>,
    options: &OptionData,
    Ghost(depth): Ghost<nat>,
) -> (out: Vec<char>)
    requires
        indent@ == indent_text(options.indent_space as nat, depth),
    ensures
        out@ == rendered(source@, node@, depth, *options),
    decreases node, 2nat, 0nat,
{
    let kind = render_kind_of(node.rule);
    let newline = newline_with(indent);
    let inner = deeper(indent, options.indent_space, Ghost(depth));
    let inner_newline = newline_with(&inner);
    let content = if !needs_children(kind) {
        Vec::new()
    } else if deepens(kind) {
        to_string_cst_inner(source, node, &inner, options, Ghost(depth + 1))
    } else {
        to_string_cst_inner(source, node, indent, options, Ghost(depth))
    };
    let own = if needs_source(kind) {
        source.slice(node.span)
    } else {
        Vec::new()
    };
    proof {
        let width = options.indent_space as nat;
        let row = options.row_length as nat;
        let all = joined(source@, node@, content_depth(kind, depth), *options);
        let src = span_text(source@, node.span);
        lemma_wrap_reads(kind, all, src, width, depth, row);
        lemma_wrap_reads(kind, content@, src, width, depth, row);
        lemma_wrap_reads(kind, content@, own@, width, depth, row);
    }
    wrap_of(
        kind,
        content,
        &own,
        &newline,
        &inner_newline,
        options.row_length,
        Ghost(options.indent_space as nat),
        Ghost(depth),
    )
}

/// Joins the renderings of the children of `node`, each rendered at nesting
/// `depth`. `indent` is the indentation of that depth.
pub fn to_string_cst_inner(
    source: &SourceText,
    node: &SyntaxNode,
    indent: &Vec<char>,
    options: &OptionData,
    Ghost(depth): Ghost<nat>,
) -> (out: Vec<char>)
    requires
        indent@ == indent_text(options.indent_space as nat, depth),
    ensures
        out@ == joined(source@, node@, depth, *options),
    decreases node, 1nat, 0nat,
{
    let kind = join_kind_of(node.rule);
    let newline = newline_with(indent);
    let sep = separator_of(node.rule, &newline);
    let mut acc: Vec<char> = Vec::new();
    if node.rule == RuleTag::Lambda {
        append_str(&mut acc, ReservedWord::Fun.text());
    }
    assert(acc@ =~= join_start(node.rule).text);
    let mut mark = false;
    let mut i: usize = 0;
    while i < node.children.len()
        invariant
            i <= node.children.len(),
            indent@ == indent_text(options.indent_space as nat, depth),
            newline@ == newline_at(options.indent_space as nat, depth),
            sep@ == crate::join::separator(node.rule, newline@),
            kind == join_kind(node.rule),
            (Joined { text: acc@, mark }) == folded(source@, node@, depth, *options, i as nat),
        decreases node.children.len() - i,
    {
        let child = &node.children[i];
        let s = to_string_cst(source, child, indent, options, Ghost(depth));
        match kind {
            JoinKind::Binding => {
                if child.rule == RuleTag::Expr && binding_breaks(&s) {
                    let inner = deeper(indent, options.indent_space, Ghost(depth));
                    let below = to_string_cst(source, child, &inner, options, Ghost(depth + 1));
                    let level = indent_chars(options.indent_space, 1);
                    acc = join_binding_below(acc, &below, &newline, &level);
                } else {
                    acc = join_binding(acc, child.rule, &s);
                }
            },
            JoinKind::Unary => {
                acc = join_unary(acc, child.rule, &s);
            },
            JoinKind::Lambda => {
                acc = join_lambda(acc, child.rule, &s);
            },
            JoinKind::RecordUnit => {
                acc = join_record_unit(acc, child.rule, &s);
            },
            JoinKind::TypeRecordUnit => {
                acc = join_type_record_unit(acc, child.rule, &s);
            },
            JoinKind::TypeApplication => {
                acc = join_type_application(acc, child.rule, &s);
            },
            JoinKind::Application => {
                let (text, spaced) = join_application(acc, mark, i, &s);
                acc = text;
                mark = spaced;
            },
            JoinKind::Bind => {
                acc = join_bind(acc, child.rule, &s, &newline);
            },
            JoinKind::TypeChain => {
                acc = join_type_chain(acc, child.rule, &s);
            },
            JoinKind::Module => {
                acc = join_module(acc, child.rule, &s);
            },
            JoinKind::Members => {
                acc = join_member(acc, child.rule, &s);
            },
            JoinKind::Inline => {
                acc = join_inline(
                    source,
                    &node.children,
                    i,
                    acc,
                    &s,
                    &newline,
                    options.row_length,
                );
            },
            JoinKind::Preamble => {
                let (text, comment) = join_statement(acc, mark, child.rule, &s);
                acc = text;
                mark = comment;
            },
            JoinKind::Plain => {
                let closes = node.rule == RuleTag::ProgramSaty && child.rule == RuleTag::Preamble;
                let (text, comment) = join_plain(acc, mark, child.rule, &s, &sep, closes);
                acc = text;
                mark = comment;
            },
        }
        i += 1;
    }
    finish_join(node.rule, acc)
}

} // verus!
