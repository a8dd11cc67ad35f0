//! Parsing: the call into the grammar, and the rebuilding of the syntax tree
//! from the flat list of nodes that the call hands back.
use crate::source::Span;
use crate::tree::{rule_of_code, trees_of, RuleTag, SyntaxNode, SyntaxTree};
use satysfi_parser::{grammar, CstText};
use vstd::prelude::*;

verus! {

/// Where the grammar gave up on an input: line and column, both counted from
/// zero.
#[derive(Clone, Copy, Debug, PartialEq, Eq, Structural)]
pub struct ParseError {
    pub line: usize,
    pub column: usize,
}

/// One node of a parse, without its children: the position of its rule in the
/// grammar's rule list, the span it covers, and how many children it has.
#[derive(Clone, Copy, Debug, PartialEq, Eq, Structural)]
pub struct RawNode {
    pub rule: u8,
    pub start: usize,
    pub end: usize,
    pub arity: usize,
}

/// What parsing `input` as a program yields: the nodes of the syntax tree,
/// each before its descendants and siblings in source order, or the place
/// where the grammar gave up.
pub uninterp spec fn parse_outcome(input: Seq<char>) -> Result<Seq<RawNode>, ParseError>;

/// The outcome of a parse as a mathematical value.
pub open spec fn listed(parsed: Result<Vec<RawNode>, ParseError>) -> Result<
    Seq<RawNode>,
    ParseError,
> {
    match parsed {
        Ok(nodes) => Ok(nodes@),
        Err(e) => Err(e),
    }
}

/// Parses `input` as a program: `satysfi_parser::CstText::parse` with the rule
/// `satysfi_parser::grammar::program`. The tree comes back as the list that
/// `Cst::listup` makes of it, each node by its rule's position, its span and
/// the number of its children; a failure as the line and column that the
/// parser reports, without the tokens it expected there, which it lists in no
/// fixed order.
///
/// Two things are claimed. The outcome depends on `input` alone. And a list
/// that comes back spells out a tree: `Cst::listup` puts a node first and the
/// lists of its children after it, in their order, so the list is the tree in
/// pre-order with the true number of children at each node, and the parser
/// has no rule beyond those of its rule list.
///
/// The parser descends recursively, so the nesting it can take is bounded by
/// the stack.
#[verifier::external_body]
fn parse_program(input: &str) -> (res: Result<Vec<RawNode>, ParseError>)
    ensures
        listed(res) == parse_outcome(input@),
        res matches Ok(nodes) ==> tree_from(nodes@) is Some,
{
    match CstText::parse(input, grammar::program) {
        Ok(parsed) => Ok(
            parsed.cst.listup().iter().map(
                |cst|
                    RawNode {
                        rule: cst.rule as u8,
                        start: cst.span.start,
                        end: cst.span.end,
                        arity: cst.inner.len(),
                    },
            ).collect(),
        ),
        Err((at, _)) => Err(ParseError { line: at.line, column: at.column }),
    }
}

/// The tree whose nodes are listed from position `pos` on, and the position
/// after its last node; `None` where the list ends early or names a rule that
/// the grammar does not have.
pub open spec fn subtree_at(nodes: Seq<RawNode>, pos: nat) -> Option<(SyntaxTree, nat)>
    decreases nodes.len() - pos, 0nat,
{
    if pos >= nodes.len() {
        None
    } else {
        match (rule_of_code(nodes[pos as int].rule), forest_at(
            nodes,
            pos + 1,
            nodes[pos as int].arity as nat,
        )) {
            (Some(rule), Some((children, next))) => Some(
                (
                    SyntaxTree {
                        rule,
                        span: Span { start: nodes[pos as int].start, end: nodes[pos as int].end },
                        children,
                    },
                    next,
                ),
            ),
            _ => None,
        }
    }
}

/// The `count` trees that are listed one after another from position `start`
/// on, and the position after the last of them.
pub open spec fn forest_at(nodes: Seq<RawNode>, start: nat, count: nat) -> Option<
    (Seq<SyntaxTree>, nat),
>
    decreases nodes.len() - start, count + 1,
{
    if count == 0 {
        Some((Seq::empty(), start))
    } else {
        match forest_at(nodes, start, (count - 1) as nat) {
            Some((trees, mid)) => if mid < start || mid >= nodes.len() {
                None
            } else {
                match subtree_at(nodes, mid) {
                    Some((tree, next)) => Some((trees.push(tree), next)),
                    None => None,
                }
            },
            None => None,
        }
    }
}

/// The tree that a list of nodes spells out from its first to its last node.
pub open spec fn tree_from(nodes: Seq<RawNode>) -> Option<SyntaxTree> {
    match subtree_at(nodes, 0) {
        Some((tree, next)) => if next == nodes.len() {
            Some(tree)
        } else {
            None
        },
        None => None,
    }
}

/// Rebuilds the tree whose nodes are listed from position `pos` on.
fn build_subtree(nodes: &Vec<RawNode>, pos: usize) -> (res: Option<(SyntaxNode, usize)>)
    ensures
        match res {
            Some((node, next)) => subtree_at(nodes@, pos as nat) == Some((node@, next as nat))
                && pos < next <= nodes.len(),
            None => subtree_at(nodes@, pos as nat) is None,
        },
    decreases nodes.len() - pos,
{
    if pos >= nodes.len() {
        return None;
    }
    let raw = nodes[pos];
    let rule = match RuleTag::from_code(raw.rule) {
        Some(rule) => rule,
        None => {
            return None;
        },
    };
    let mut children: Vec<SyntaxNode> = Vec::new();
    let mut cur: usize = pos + 1;
    let mut i: usize = 0;
    while i < raw.arity
        invariant
            i <= raw.arity,
            pos < cur <= nodes.len(),
            raw == nodes@[pos as int],
            forest_at(nodes@, (pos + 1) as nat, i as nat) == Some((trees_of(children@), cur as nat)),
        decreases raw.arity - i,
    {
        match build_subtree(nodes, cur) {
            Some((child, next)) => {
                proof {
                    assert(trees_of(children@.push(child)) =~= trees_of(children@).push(child@));
                }
                children.push(child);
                cur = next;
            },
            None => {
                proof {
                    assert(forest_at(nodes@, (pos + 1) as nat, (i + 1) as nat) is None);
                    lemma_forest_fails(nodes@, (pos + 1) as nat, (i + 1) as nat, raw.arity as nat);
                }
                return None;
            },
        }
        i += 1;
    }
    Some((SyntaxNode { rule, span: Span { start: raw.start, end: raw.end }, children }, cur))
}

/// Once the list fails to spell out some number of trees, it fails for every
/// larger number.
proof fn lemma_forest_fails(nodes: Seq<RawNode>, start: nat, failed: nat, count: nat)
    requires
        failed <= count,
        forest_at(nodes, start, failed) is None,
    ensures
        forest_at(nodes, start, count) is None,
    decreases count,
{
    if failed < count {
        lemma_forest_fails(nodes, start, failed, (count - 1) as nat);
    }
}

/// Rebuilds the tree that a list of nodes spells out; `None` where the list
/// spells out no tree.
pub fn syntax_tree(nodes: &Vec<RawNode>) -> (res: Option<SyntaxNode>)
    ensures
        match res {
            Some(node) => tree_from(nodes@) == Some(node@),
            None => tree_from(nodes@) is None,
        },
{
    match build_subtree(nodes, 0) {
        Some((node, next)) => if next == nodes.len() {
            Some(node)
        } else {
            None
        },
        None => None,
    }
}

/// The syntax tree that the outcome of a parse stands for: the parser's
/// failure as it is; the tree that the parsed nodes spell out; a failure at
/// the start of the input where they spell out no tree.
pub open spec fn tree_outcome(parsed: Result<Seq<RawNode>, ParseError>) -> Result<
    SyntaxTree,
    ParseError,
> {
    match parsed {
        Err(e) => Err(e),
        Ok(nodes) => match tree_from(nodes) {
            Some(tree) => Ok(tree),
            None => Err(ParseError { line: 0, column: 0 }),
        },
    }
}

/// Rebuilds the syntax tree from the outcome of a parse.
pub fn tree_of_parse(parsed: Result<Vec<RawNode>, ParseError>) -> (res: Result<
    SyntaxNode,
    ParseError,
>)
    ensures
        match res {
            Ok(node) => tree_outcome(listed(parsed)) == Ok::<SyntaxTree, ParseError>(node@),
            Err(e) => tree_outcome(listed(parsed)) == Err::<SyntaxTree, ParseError>(e),
        },
{
    match parsed {
        Err(e) => Err(e),
        Ok(nodes) => match syntax_tree(&nodes) {
            Some(root) => Ok(root),
            None => Err(ParseError { line: 0, column: 0 }),
        },
    }
}

/// Parses `input` as a program and rebuilds its syntax tree. It fails exactly
/// where the grammar rejects the input, with the place where parsing gave up.
/// Comments are no part of the tree.
pub fn parse_tree(input: &str) -> (res: Result<SyntaxNode, ParseError>)
    ensures
        match parse_outcome(input@) {
            Ok(nodes) => res matches Ok(node) && tree_from(nodes) == Some(node@),
            Err(e) => res == Err::<SyntaxNode, ParseError>(e),
        },
{
    tree_of_parse(parse_program(input))
}

} // verus!
