use satysfi_formatter::attach::attach_comments;
use satysfi_formatter::document::{finish, format_tree};
use satysfi_formatter::OptionData;
use satysfi_formatter::parse::{parse_tree, syntax_tree, tree_of_parse, RawNode};
use satysfi_formatter::source::{SourceText, Span};
use satysfi_formatter::tree::{RuleTag, SyntaxNode};
use satysfi_formatter::ParseError;

fn raw(rule: u8, start: usize, end: usize, arity: usize) -> RawNode {
    RawNode { rule, start, end, arity }
}

fn leaf(rule: RuleTag, start: usize, end: usize) -> SyntaxNode {
    SyntaxNode::leaf(rule, start, end)
}

fn node(rule: RuleTag, start: usize, end: usize, children: Vec<SyntaxNode>) -> SyntaxNode {
    SyntaxNode::branch(rule, start, end, children)
}

fn chars(s: &str) -> Vec<char> {
    s.chars().collect()
}

#[test]
fn rule_codes_follow_the_rule_list() {
    assert_eq!(RuleTag::from_code(0), Some(RuleTag::Misc));
    assert_eq!(RuleTag::from_code(1), Some(RuleTag::ProgramSaty));
    assert_eq!(RuleTag::from_code(2), Some(RuleTag::ProgramSatyh));
    assert_eq!(RuleTag::from_code(3), Some(RuleTag::Preamble));
    assert_eq!(RuleTag::from_code(123), Some(RuleTag::DummyModvarIncomplete));
    assert_eq!(RuleTag::from_code(124), None);
    assert_eq!(RuleTag::from_code(255), None);
}

#[test]
fn parse_yields_the_tree_of_the_source() {
    let tree = parse_tree("let x = 1").unwrap();
    let expected = node(
        RuleTag::ProgramSatyh,
        0,
        9,
        vec![
            leaf(RuleTag::Headers, 0, 0),
            node(
                RuleTag::Preamble,
                0,
                9,
                vec![node(
                    RuleTag::LetStmt,
                    0,
                    9,
                    vec![
                        node(RuleTag::Pattern, 4, 5, vec![leaf(RuleTag::Var, 4, 5)]),
                        node(
                            RuleTag::Expr,
                            8,
                            9,
                            vec![node(RuleTag::Unary, 8, 9, vec![leaf(RuleTag::ConstInt, 8, 9)])],
                        ),
                    ],
                )],
            ),
        ],
    );
    assert_eq!(tree, expected);
}

#[test]
fn parse_tags_every_kind_of_node() {
    let input = "@require: a\nlet-inline ctx \\f x = {#x; `s` \\g{${a^2}}}\nin\n'<+p?:(1)(f [2pt; 0.5] (| a = true |)){* b}>";
    let tree = parse_tree(input).unwrap();
    let mut rules = Vec::new();
    let mut todo = vec![&tree];
    while let Some(next) = todo.pop() {
        rules.push(next.rule);
        for child in next.children.iter().rev() {
            todo.push(child);
        }
    }
    for rule in [
        RuleTag::ProgramSaty,
        RuleTag::HeaderRequire,
        RuleTag::Pkgname,
        RuleTag::LetInlineStmtCtx,
        RuleTag::InlineCmdName,
        RuleTag::CmdNamePtn,
        RuleTag::Arg,
        RuleTag::HorizontalText,
        RuleTag::HorizontalSingle,
        RuleTag::InlineTextEmbedding,
        RuleTag::ConstString,
        RuleTag::InlineCmd,
        RuleTag::CmdTextArg,
        RuleTag::MathText,
        RuleTag::MathSup,
        RuleTag::BlockText,
        RuleTag::Vertical,
        RuleTag::BlockCmd,
        RuleTag::BlockCmdName,
        RuleTag::CmdExprOption,
        RuleTag::CmdExprArg,
        RuleTag::Application,
        RuleTag::ApplicationArgsNormal,
        RuleTag::List,
        RuleTag::ConstLength,
        RuleTag::ConstFloat,
        RuleTag::Record,
        RuleTag::RecordUnit,
        RuleTag::VarPtn,
        RuleTag::ConstBool,
        RuleTag::HorizontalBulletList,
        RuleTag::HorizontalBullet,
        RuleTag::HorizontalBulletStar,
        RuleTag::RegularText,
    ] {
        assert!(rules.contains(&rule), "{:?}", rule);
    }
    assert!(!rules.contains(&RuleTag::Comments));
}

#[test]
fn parse_reports_spans_in_bytes() {
    let tree = parse_tree("let x = `あ`").unwrap();
    let mut last = &tree;
    while let Some(child) = last.children.last() {
        last = child;
    }
    assert_eq!(last, &leaf(RuleTag::ConstString, 8, 13));
}

#[test]
fn parse_reports_where_it_stopped() {
    assert_eq!(parse_tree("let x ="), Err(ParseError { line: 0, column: 7 }));
    assert_eq!(parse_tree("let x = 1\n\n  )"), Err(ParseError { line: 2, column: 2 }));
}

#[test]
fn tree_follows_the_outcome_of_parsing() {
    let failure = ParseError { line: 3, column: 4 };
    assert_eq!(tree_of_parse(Err(failure)), Err(failure));
    assert_eq!(tree_of_parse(Ok(vec![raw(77, 1, 2, 0)])), Ok(leaf(RuleTag::Var, 1, 2)));
    assert_eq!(tree_of_parse(Ok(vec![])), Err(ParseError { line: 0, column: 0 }));
    assert_eq!(
        tree_of_parse(Ok(vec![raw(77, 1, 2, 1)])),
        Err(ParseError { line: 0, column: 0 })
    );
}

#[test]
fn tree_is_rebuilt_from_its_list() {
    let nodes = vec![raw(3, 0, 9, 2), raw(77, 0, 1, 0), raw(49, 2, 9, 1), raw(77, 4, 5, 0)];
    let tree = syntax_tree(&nodes);
    let expected = node(
        RuleTag::Preamble,
        0,
        9,
        vec![
            leaf(RuleTag::Var, 0, 1),
            node(RuleTag::Expr, 2, 9, vec![leaf(RuleTag::Var, 4, 5)]),
        ],
    );
    assert_eq!(tree, Some(expected));
}

#[test]
fn list_that_spells_out_no_tree_is_refused() {
    // No node at all.
    assert_eq!(syntax_tree(&vec![]), None);
    // A child is missing.
    assert_eq!(syntax_tree(&vec![raw(3, 0, 9, 2), raw(77, 0, 1, 0)]), None);
    // A node is left over.
    assert_eq!(syntax_tree(&vec![raw(3, 0, 9, 0), raw(77, 0, 1, 0)]), None);
    // A rule that the grammar does not have.
    assert_eq!(syntax_tree(&vec![raw(200, 0, 9, 0)]), None);
    assert_eq!(syntax_tree(&vec![raw(3, 0, 9, 1), raw(124, 0, 1, 0)]), None);
}

#[test]
fn parsed_tree_is_well_formed() {
    for input in [
        "let x = 1",
        "@require: a\nlet f x = (| a = [x; `あ`]; b = {\\emph{い} う} |)",
        "document (| |) '<+p{a % c\n b}>",
    ] {
        let tree = parse_tree(input).unwrap();
        let source = SourceText::new(input);
        assert!(tree.check(&source));
        assert!(attach_comments(&source, &tree).check(&source));
    }
}

#[test]
fn check_refuses_trees_that_break_the_nesting() {
    let source = SourceText::new("あいう abc");
    assert!(leaf(RuleTag::Var, 0, 13).check(&source));
    assert!(leaf(RuleTag::Var, 3, 3).check(&source));
    // A span that runs backwards, leaves the text, or splits a character.
    assert!(!leaf(RuleTag::Var, 3, 0).check(&source));
    assert!(!leaf(RuleTag::Var, 0, 14).check(&source));
    assert!(!leaf(RuleTag::Var, 1, 3).check(&source));
    // Children in order and inside their parent.
    let good = node(
        RuleTag::Expr,
        0,
        13,
        vec![leaf(RuleTag::Var, 0, 3), leaf(RuleTag::Var, 3, 9), leaf(RuleTag::Var, 10, 13)],
    );
    assert!(good.check(&source));
    let outside = node(RuleTag::Expr, 3, 13, vec![leaf(RuleTag::Var, 0, 6)]);
    assert!(!outside.check(&source));
    let beyond = node(RuleTag::Expr, 0, 10, vec![leaf(RuleTag::Var, 9, 13)]);
    assert!(!beyond.check(&source));
    let overlap = node(
        RuleTag::Expr,
        0,
        13,
        vec![leaf(RuleTag::Var, 0, 6), leaf(RuleTag::Var, 3, 9)],
    );
    assert!(!overlap.check(&source));
    let swapped = node(
        RuleTag::Expr,
        0,
        13,
        vec![leaf(RuleTag::Var, 10, 13), leaf(RuleTag::Var, 0, 3)],
    );
    assert!(!swapped.check(&source));
    let deep = node(
        RuleTag::Expr,
        0,
        13,
        vec![node(RuleTag::Expr, 0, 6, vec![leaf(RuleTag::Var, 0, 9)])],
    );
    assert!(!deep.check(&source));
}

#[test]
fn comments_are_attached_between_children() {
    let text = "%a\nx %b\n %c\r\ny % d";
    let source = SourceText::new(text);
    let tree = node(
        RuleTag::Preamble,
        0,
        18,
        vec![leaf(RuleTag::Var, 3, 4), leaf(RuleTag::Var, 13, 14)],
    );
    let expected = node(
        RuleTag::Preamble,
        0,
        18,
        vec![
            leaf(RuleTag::Comments, 0, 2),
            leaf(RuleTag::Var, 3, 4),
            leaf(RuleTag::Comments, 5, 7),
            leaf(RuleTag::Comments, 9, 11),
            leaf(RuleTag::Var, 13, 14),
            leaf(RuleTag::Comments, 15, 18),
        ],
    );
    assert_eq!(attach_comments(&source, &tree), expected);
}

#[test]
fn comments_are_attached_at_every_level() {
    let text = "[a; % one\n [b % two\n]]";
    let source = SourceText::new(text);
    let inner = node(RuleTag::List, 11, 21, vec![leaf(RuleTag::Var, 12, 13)]);
    let tree = node(RuleTag::List, 0, 22, vec![leaf(RuleTag::Var, 1, 2), inner]);
    let inner = node(
        RuleTag::List,
        11,
        21,
        vec![leaf(RuleTag::Var, 12, 13), leaf(RuleTag::Comments, 14, 19)],
    );
    let expected = node(
        RuleTag::List,
        0,
        22,
        vec![leaf(RuleTag::Var, 1, 2), leaf(RuleTag::Comments, 4, 9), inner],
    );
    assert_eq!(attach_comments(&source, &tree), expected);
}

#[test]
fn comment_spans_count_bytes() {
    let text = "あ %い\nう";
    let source = SourceText::new(text);
    let tree = node(
        RuleTag::Preamble,
        0,
        12,
        vec![leaf(RuleTag::Var, 0, 3), leaf(RuleTag::Var, 9, 12)],
    );
    let expected = node(
        RuleTag::Preamble,
        0,
        12,
        vec![
            leaf(RuleTag::Var, 0, 3),
            leaf(RuleTag::Comments, 4, 8),
            leaf(RuleTag::Var, 9, 12),
        ],
    );
    assert_eq!(attach_comments(&source, &tree), expected);
}

#[test]
fn nodes_that_are_written_out_verbatim_take_no_comments() {
    let text = "`50%` (a, % c\n b)";
    let source = SourceText::new(text);
    let string = leaf(RuleTag::ConstString, 0, 5);
    assert_eq!(attach_comments(&source, &string), leaf(RuleTag::ConstString, 0, 5));
    let tuple = node(
        RuleTag::Tuple,
        6,
        17,
        vec![leaf(RuleTag::Var, 7, 8), leaf(RuleTag::Var, 15, 16)],
    );
    let same = node(
        RuleTag::Tuple,
        6,
        17,
        vec![leaf(RuleTag::Var, 7, 8), leaf(RuleTag::Var, 15, 16)],
    );
    assert_eq!(attach_comments(&source, &tuple), same);
}

#[test]
fn gaps_that_address_nothing_hold_no_comments() {
    let text = "% a\n% b";
    let source = SourceText::new(text);
    // The child starts before the node does.
    let tree = node(RuleTag::Preamble, 4, 7, vec![leaf(RuleTag::Var, 0, 3)]);
    let expected = node(
        RuleTag::Preamble,
        4,
        7,
        vec![leaf(RuleTag::Var, 0, 3), leaf(RuleTag::Comments, 4, 7)],
    );
    assert_eq!(attach_comments(&source, &tree), expected);
    // The node reaches past the end of the text.
    let tree = leaf(RuleTag::Preamble, 0, 8);
    assert_eq!(attach_comments(&source, &tree), leaf(RuleTag::Preamble, 0, 8));
}

#[test]
fn source_text_slices_by_byte_offsets() {
    let source = SourceText::new("aあ😀b");
    assert_eq!(source.len(), 4);
    assert_eq!(source.slice(Span { start: 0, end: 9 }), chars("aあ😀b"));
    assert_eq!(source.slice(Span { start: 1, end: 4 }), chars("あ"));
    assert_eq!(source.slice(Span { start: 4, end: 8 }), chars("😀"));
    assert_eq!(source.slice(Span { start: 8, end: 9 }), chars("b"));
    assert_eq!(source.slice(Span { start: 9, end: 9 }), chars(""));
    assert_eq!(source.slice(Span { start: 2, end: 4 }), chars(""));
    assert_eq!(source.slice(Span { start: 4, end: 6 }), chars(""));
    assert_eq!(source.slice(Span { start: 4, end: 1 }), chars(""));
    assert_eq!(source.slice(Span { start: 0, end: 10 }), chars(""));
    assert_eq!(source.char_range(Span { start: 1, end: 8 }), Some((1, 3)));
    assert_eq!(source.char_range(Span { start: 1, end: 7 }), None);
    assert_eq!(source.offset_of(0), 0);
    assert_eq!(source.offset_of(1), 1);
    assert_eq!(source.offset_of(2), 4);
    assert_eq!(source.offset_of(3), 8);
    assert_eq!(source.offset_of(4), 9);
    assert_eq!(source.char_at(2), '😀');
}

#[test]
fn finish_closes_with_exactly_one_line_feed() {
    assert_eq!(finish(chars("")), chars("\n"));
    assert_eq!(finish(chars("a")), chars("a\n"));
    assert_eq!(finish(chars("a\n")), chars("a\n"));
    assert_eq!(finish(chars("a\n\n\n")), chars("a\n"));
    assert_eq!(finish(chars("\n\n")), chars("\n"));
    assert_eq!(finish(chars("a\n \n")), chars("a\n \n"));
    assert_eq!(finish(chars("a\nb")), chars("a\nb\n"));
}

#[test]
fn tree_is_formatted_with_the_options_given() {
    let text = "[a; % c\n b]\n\n";
    let list = node(RuleTag::List, 0, 11, vec![leaf(RuleTag::Var, 1, 2), leaf(RuleTag::Var, 9, 10)]);
    assert_eq!(
        format_tree(text, &list, &OptionData::new(80, 2)),
        "[\n  a;\n  % c\n  b;\n]\n"
    );
    assert_eq!(
        format_tree(text, &list, &OptionData::default()),
        "[\n    a;\n    % c\n    b;\n]\n"
    );
    let headers = node(
        RuleTag::Headers,
        0,
        12,
        vec![node(RuleTag::HeaderRequire, 0, 12, vec![leaf(RuleTag::Pkgname, 10, 11)])],
    );
    assert_eq!(format_tree("@require: a\n", &headers, &OptionData::default()), "@require: a\n");
    assert_eq!(format_tree("", &leaf(RuleTag::Preamble, 0, 0), &OptionData::default()), "\n");
}
