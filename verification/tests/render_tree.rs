use satysfi_formatter::document::render;
use satysfi_formatter::tree::{RuleTag, SyntaxNode};
use satysfi_formatter::OptionData;

fn leaf(rule: RuleTag, start: usize, end: usize) -> SyntaxNode {
    SyntaxNode::leaf(rule, start, end)
}

fn node(rule: RuleTag, start: usize, end: usize, children: Vec<SyntaxNode>) -> SyntaxNode {
    SyntaxNode::branch(rule, start, end, children)
}

fn shown(text: &str, root: &SyntaxNode) -> String {
    render(text, root, &OptionData::default())
}

/// An expression that holds one variable.
fn expr_var(start: usize, end: usize) -> SyntaxNode {
    node(RuleTag::Expr, start, end, vec![leaf(RuleTag::Var, start, end)])
}

#[test]
fn leaf_renders_as_its_source() {
    assert_eq!(shown("foo bar", &leaf(RuleTag::Var, 0, 3)), "foo");
    assert_eq!(shown("foo bar", &leaf(RuleTag::ConstString, 4, 7)), "bar");
    assert_eq!(shown("a  +  b", &leaf(RuleTag::BinOperator, 3, 4)), "+");
    assert_eq!(shown("not x", &leaf(RuleTag::UnaryOperator, 0, 3)), "not");
}

#[test]
fn leaf_ignores_its_children() {
    let pattern = node(RuleTag::Pattern, 0, 7, vec![leaf(RuleTag::Var, 1, 2)]);
    assert_eq!(shown("(a,  b)", &pattern), "(a,  b)");
}

#[test]
fn span_that_addresses_nothing_renders_empty() {
    assert_eq!(shown("foo", &leaf(RuleTag::Var, 2, 100)), "");
    assert_eq!(shown("foo", &leaf(RuleTag::Var, 3, 1)), "");
    // Byte 1 lies inside the first character.
    assert_eq!(shown("あい", &leaf(RuleTag::Var, 1, 3)), "");
    assert_eq!(shown("あい", &leaf(RuleTag::Var, 3, 6)), "い");
    assert_eq!(shown("あい", &leaf(RuleTag::Var, 0, 6)), "あい");
}

#[test]
fn rule_without_a_form_renders_nothing() {
    let math = node(RuleTag::MathSingle, 0, 1, vec![leaf(RuleTag::Var, 0, 1)]);
    assert_eq!(shown("x", &math), "");
    assert_eq!(shown("x", &leaf(RuleTag::DummyStmt, 0, 1)), "");
}

#[test]
fn fixed_forms() {
    assert_eq!(shown("**", &leaf(RuleTag::HorizontalBulletStar, 0, 2)), "* ");
    assert_eq!(shown("", &leaf(RuleTag::Misc, 0, 0)), " ");
    assert_eq!(shown(" 1 ", &leaf(RuleTag::Stage, 0, 3)), "@stage: 1\n\n");
    assert_eq!(shown("  pkg  ", &leaf(RuleTag::Pkgname, 0, 7)), "pkg");
}

#[test]
fn comment_is_trimmed_and_ends_its_line() {
    assert_eq!(shown("% note   ", &leaf(RuleTag::Comments, 0, 9)), "% note\n");
}

#[test]
fn comment_is_followed_by_the_indentation_of_its_parent() {
    let list = node(RuleTag::List, 0, 8, vec![leaf(RuleTag::Comments, 1, 4), leaf(RuleTag::Var, 6, 7)]);
    assert_eq!(shown("[% c\n a]", &list), "[\n    % c\n    a;\n]");
}

#[test]
fn headers_are_followed_by_a_blank_line() {
    let text = "@require: a\n@import: b\n";
    let headers = node(
        RuleTag::Headers,
        0,
        23,
        vec![
            node(RuleTag::HeaderRequire, 0, 12, vec![leaf(RuleTag::Pkgname, 10, 11)]),
            node(RuleTag::HeaderImport, 12, 23, vec![leaf(RuleTag::Pkgname, 21, 22)]),
        ],
    );
    assert_eq!(shown(text, &headers), "@require: a\n@import: b\n\n");
    assert_eq!(shown(text, &leaf(RuleTag::Headers, 0, 0)), "");
}

#[test]
fn binding_joins_name_type_and_value() {
    let text = "x int 1";
    let binding = |rule| {
        node(
            rule,
            0,
            7,
            vec![
                leaf(RuleTag::Var, 0, 1),
                node(RuleTag::TypeExpr, 2, 5, vec![leaf(RuleTag::TypeName, 2, 5)]),
                expr_var(6, 7),
            ],
        )
    };
    assert_eq!(shown(text, &binding(RuleTag::LetStmt)), "\nlet x: int = 1");
    assert_eq!(shown(text, &binding(RuleTag::LetRecStmt)), "\nlet-rec x: int = 1");
    assert_eq!(shown(text, &binding(RuleTag::LetMutableStmt)), "\nlet-mutable x: int = 1");
    assert_eq!(shown(text, &binding(RuleTag::LetInlineStmtCtx)), "\nlet-inline x: int = 1");
    assert_eq!(shown(text, &binding(RuleTag::LetInlineStmtNoctx)), "\nlet-inline x: int = 1");
    assert_eq!(shown(text, &binding(RuleTag::LetBlockStmtCtx)), "\nlet-block x: int = 1");
    assert_eq!(shown(text, &binding(RuleTag::LetBlockStmtNoctx)), "\nlet-block x: int = 1");
    assert_eq!(shown(text, &binding(RuleTag::LetMathStmt)), "\nlet-math x: int = 1");
    assert_eq!(shown(text, &binding(RuleTag::TypeStmt)), "\ntype x: int = 1");
    assert_eq!(shown(text, &binding(RuleTag::SigValStmt)), "\nval x: int = 1");
    assert_eq!(shown(text, &binding(RuleTag::SigDirectStmt)), "\ndirect x: int = 1");
}

#[test]
fn keyword_rules_that_join_plainly() {
    let text = "a b";
    let plain = |rule| node(rule, 0, 3, vec![leaf(RuleTag::Var, 0, 1), leaf(RuleTag::Var, 2, 3)]);
    assert_eq!(shown(text, &plain(RuleTag::SigTypeStmt)), "\ntypeab");
    assert_eq!(shown(text, &plain(RuleTag::Constraint)), "\nconstraintab");
}

#[test]
fn value_of_several_lines_goes_below_one_level_deeper() {
    let text = "x [a; b]";
    let list = node(RuleTag::List, 2, 8, vec![expr_var(3, 4), expr_var(6, 7)]);
    let binding = node(
        RuleTag::LetStmt,
        0,
        8,
        vec![leaf(RuleTag::Var, 0, 1), node(RuleTag::Expr, 2, 8, vec![list])],
    );
    assert_eq!(shown(text, &binding), "\nlet x =\n    [\n        a;\n        b;\n    ]");
}

#[test]
fn bind_breaks_after_in_once_the_text_spans_lines() {
    let text = "x 1 y";
    let stmt = node(RuleTag::LetStmt, 0, 3, vec![leaf(RuleTag::Var, 0, 1), expr_var(2, 3)]);
    let bind = node(RuleTag::BindStmt, 0, 5, vec![stmt, expr_var(4, 5)]);
    assert_eq!(shown(text, &bind), "\nlet x = 1 in\ny");
}

#[test]
fn bind_on_one_line_joins_with_in() {
    let text = "M y";
    let open = node(RuleTag::OpenStmt, 0, 1, vec![leaf(RuleTag::ModuleName, 0, 1)]);
    let bind = node(RuleTag::BindStmt, 0, 3, vec![open, expr_var(2, 3)]);
    assert_eq!(shown(text, &bind), "M in y");
}

#[test]
fn unary_wraps_operators_and_expressions() {
    let text = "x";
    assert_eq!(shown(text, &node(RuleTag::Unary, 0, 1, vec![expr_var(0, 1)])), "(x)");
    assert_eq!(
        shown(text, &node(RuleTag::Unary, 0, 1, vec![leaf(RuleTag::UnaryOperator, 0, 1)])),
        "(x)"
    );
    assert_eq!(shown(text, &node(RuleTag::Unary, 0, 1, vec![leaf(RuleTag::Var, 0, 1)])), "x");
}

#[test]
fn lambda_joins_patterns_and_body() {
    let text = "a b c";
    let lambda = node(
        RuleTag::Lambda,
        0,
        5,
        vec![leaf(RuleTag::Pattern, 0, 1), leaf(RuleTag::Pattern, 2, 3), leaf(RuleTag::Var, 4, 5)],
    );
    assert_eq!(shown(text, &lambda), "fun a b -> c");
    assert_eq!(shown(text, &leaf(RuleTag::Lambda, 0, 0)), "fun");
}

#[test]
fn record_unit_joins_name_and_value() {
    let text = "a 1 b";
    let unit = node(RuleTag::RecordUnit, 0, 3, vec![leaf(RuleTag::VarPtn, 0, 1), expr_var(2, 3)]);
    assert_eq!(shown(text, &unit), "a = 1");
    let names = node(
        RuleTag::RecordUnit,
        0,
        5,
        vec![leaf(RuleTag::VarPtn, 0, 1), leaf(RuleTag::VarPtn, 4, 5), leaf(RuleTag::Var, 2, 3)],
    );
    assert_eq!(shown(text, &names), "a b1");
}

#[test]
fn type_record_unit_joins_name_and_type() {
    let text = "a int";
    let unit = node(
        RuleTag::TypeRecordUnit,
        0,
        5,
        vec![
            leaf(RuleTag::Var, 0, 1),
            node(RuleTag::TypeExpr, 2, 5, vec![leaf(RuleTag::TypeName, 2, 5)]),
        ],
    );
    assert_eq!(shown(text, &unit), "a: int");
}

#[test]
fn type_application_wraps_type_expressions() {
    let text = "a b";
    let app = node(
        RuleTag::TypeApplication,
        0,
        3,
        vec![
            leaf(RuleTag::TypeName, 0, 1),
            node(RuleTag::TypeExpr, 2, 3, vec![leaf(RuleTag::TypeName, 2, 3)]),
            leaf(RuleTag::TypeName, 0, 1),
        ],
    );
    assert_eq!(shown(text, &app), "a (b) a");
}

#[test]
fn type_chain_joins_with_arrows() {
    let text = "a b c";
    let part = |rule, at| node(rule, at, at + 1, vec![leaf(RuleTag::TypeName, at, at + 1)]);
    let chain = node(
        RuleTag::TypeExpr,
        0,
        5,
        vec![
            part(RuleTag::TypeProd, 0),
            part(RuleTag::TypeOptional, 2),
            part(RuleTag::TypeProd, 4),
            leaf(RuleTag::TypeName, 0, 1),
        ],
    );
    assert_eq!(shown(text, &chain), "a ?-> b -> c a");
}

#[test]
fn application_spaces_its_arguments() {
    let text = "f x y";
    let app = node(
        RuleTag::Application,
        0,
        5,
        vec![leaf(RuleTag::Var, 0, 1), leaf(RuleTag::Var, 2, 3), leaf(RuleTag::Var, 4, 5)],
    );
    assert_eq!(shown(text, &app), "f x y");
    assert_eq!(shown(text, &leaf(RuleTag::Application, 0, 5)), "");
}

#[test]
fn application_of_document_takes_no_spaces() {
    let text = "document x y";
    let app = node(
        RuleTag::Application,
        0,
        12,
        vec![leaf(RuleTag::Var, 0, 8), leaf(RuleTag::Var, 9, 10), leaf(RuleTag::Var, 11, 12)],
    );
    assert_eq!(shown(text, &app), "documentxy");
    let near = node(
        RuleTag::Application,
        0,
        12,
        vec![leaf(RuleTag::Var, 0, 7), leaf(RuleTag::Var, 9, 10)],
    );
    assert_eq!(shown(text, &near), "documen x");
}

#[test]
fn module_joins_name_signature_and_structure() {
    let text = "M";
    let module = node(
        RuleTag::ModuleStmt,
        0,
        1,
        vec![
            leaf(RuleTag::ModuleName, 0, 1),
            leaf(RuleTag::SigStmt, 0, 0),
            leaf(RuleTag::StructStmt, 0, 0),
        ],
    );
    assert_eq!(shown(text, &module), "module M: sig\nend = struct\nend");
}

#[test]
fn members_take_a_line_each() {
    let text = "x 1 % c\ny 2";
    let first = node(RuleTag::LetStmt, 0, 3, vec![leaf(RuleTag::Var, 0, 1), expr_var(2, 3)]);
    let second = node(RuleTag::LetStmt, 8, 11, vec![leaf(RuleTag::Var, 8, 9), expr_var(10, 11)]);
    let body = node(
        RuleTag::StructStmt,
        0,
        11,
        vec![first, leaf(RuleTag::Comments, 4, 7), second],
    );
    assert_eq!(
        shown(text, &body),
        "struct\n    let x = 1% c\n    \n\n    let y = 2\nend"
    );
}

#[test]
fn signature_members_are_joined_like_structure_members() {
    let text = "a b";
    let sig = node(
        RuleTag::SigStmt,
        0,
        3,
        vec![leaf(RuleTag::Var, 0, 1), leaf(RuleTag::Var, 2, 3)],
    );
    assert_eq!(shown(text, &sig), "siga\nb\nend");
}

#[test]
fn member_after_in_continues_the_line() {
    let text = "in y";
    let body = node(
        RuleTag::StructStmt,
        0,
        4,
        vec![leaf(RuleTag::Var, 0, 2), leaf(RuleTag::Var, 3, 4)],
    );
    assert_eq!(shown(text, &body), "structiny\nend");
}

#[test]
fn preamble_drops_empty_statements() {
    let text = " a  b ";
    let preamble = node(
        RuleTag::Preamble,
        0,
        6,
        vec![
            leaf(RuleTag::Var, 0, 2),
            leaf(RuleTag::DummyStmt, 2, 3),
            leaf(RuleTag::Var, 3, 6),
        ],
    );
    assert_eq!(shown(text, &preamble), "a\n\nb");
}

#[test]
fn comment_follows_the_statement_before_it_at_once() {
    let text = "a %c\nb %d\n\nc";
    let preamble = node(
        RuleTag::Preamble,
        0,
        12,
        vec![
            leaf(RuleTag::Var, 0, 1),
            leaf(RuleTag::Comments, 2, 4),
            leaf(RuleTag::Var, 5, 6),
            leaf(RuleTag::Comments, 7, 9),
            leaf(RuleTag::DummyStmt, 9, 9),
            leaf(RuleTag::Var, 11, 12),
        ],
    );
    assert_eq!(shown(text, &preamble), "a%c\nb%d\nc");
}

#[test]
fn comment_before_the_first_statement_keeps_its_line() {
    let text = "%c \na b";
    let preamble = node(
        RuleTag::Preamble,
        0,
        7,
        vec![
            leaf(RuleTag::Comments, 0, 3),
            leaf(RuleTag::Var, 4, 5),
            leaf(RuleTag::Var, 6, 7),
        ],
    );
    assert_eq!(shown(text, &preamble), "%c\na\n\nb");
}

#[test]
fn text_argument_counts_its_delimiters_against_the_row_length() {
    let text = "{abc}";
    let arg = node(RuleTag::CmdTextArg, 0, 5, vec![leaf(RuleTag::Var, 1, 4)]);
    assert_eq!(render(text, &arg, &OptionData::new(3, 4)), "{\n    abc\n}");
    assert_eq!(render(text, &arg, &OptionData::new(6, 4)), "{\n    abc\n}");
    assert_eq!(render(text, &arg, &OptionData::new(7, 4)), "{ abc }");
    // Other brackets do not wrap by length.
    let list = node(RuleTag::List, 0, 5, vec![leaf(RuleTag::Var, 1, 4)]);
    assert_eq!(render(text, &list, &OptionData::new(3, 4)), "[ abc ]");
}

#[test]
fn document_program_closes_its_preamble_with_in() {
    let text = "a b";
    let preamble = node(RuleTag::Preamble, 0, 1, vec![leaf(RuleTag::Var, 0, 1)]);
    let program = node(RuleTag::ProgramSaty, 0, 3, vec![preamble, expr_var(2, 3)]);
    assert_eq!(shown(text, &program), "a\nin\n\nb");
    let preamble = node(RuleTag::Preamble, 0, 1, vec![leaf(RuleTag::Var, 0, 1)]);
    let header_file = node(RuleTag::ProgramSatyh, 0, 3, vec![preamble]);
    assert_eq!(shown(text, &header_file), "a");
}

#[test]
fn separators_follow_the_rule() {
    let text = "a b";
    let pair = |rule| node(rule, 0, 3, vec![leaf(RuleTag::Var, 0, 1), leaf(RuleTag::Var, 2, 3)]);
    assert_eq!(shown(text, &pair(RuleTag::DyadicExpr)), "a b");
    assert_eq!(shown(text, &pair(RuleTag::UnaryOperatorExpr)), "a b");
    assert_eq!(shown(text, &pair(RuleTag::TypeProd)), "a b");
    assert_eq!(shown(text, &pair(RuleTag::InlineCmd)), "a b");
    assert_eq!(shown(text, &pair(RuleTag::BlockCmd)), "a b");
    assert_eq!(shown(text, &pair(RuleTag::Vertical)), "a\nb");
    assert_eq!(shown(text, &pair(RuleTag::HorizontalBulletList)), "a\nb");
    assert_eq!(shown(text, &pair(RuleTag::MatchArm)), "ab");
    assert_eq!(shown(text, &pair(RuleTag::List)), "[\n    a;\n    b;\n]");
    assert_eq!(shown(text, &pair(RuleTag::Record)), "(|\n    a;\n    b;\n|)");
    assert_eq!(shown(text, &pair(RuleTag::TypeRecord)), "(|\n    a;\n    b;\n|)");
    assert_eq!(shown(text, &pair(RuleTag::TypeInlineCmd)), "[\n    a;\n    b;\n] inline-cmd");
    assert_eq!(shown(text, &pair(RuleTag::TypeBlockCmd)), "[\n    a;\n    b;\n] block-cmd");
    assert_eq!(shown(text, &pair(RuleTag::TypeMathCmd)), "[\n    a;\n    b;\n] math-cmd");
}

#[test]
fn plain_join_skips_empty_children() {
    let text = "a b";
    let list = node(
        RuleTag::DyadicExpr,
        0,
        3,
        vec![leaf(RuleTag::Var, 0, 1), leaf(RuleTag::Var, 1, 1), leaf(RuleTag::Var, 2, 3)],
    );
    assert_eq!(shown(text, &list), "a b");
}

#[test]
fn child_after_a_comment_takes_no_separator() {
    let text = "a %c\nb";
    let list = node(
        RuleTag::DyadicExpr,
        0,
        6,
        vec![leaf(RuleTag::Var, 0, 1), leaf(RuleTag::Comments, 2, 4), leaf(RuleTag::Var, 5, 6)],
    );
    assert_eq!(shown(text, &list), "a %c\nb");
}

#[test]
fn brackets_on_one_line_take_a_space_on_each_side() {
    let text = "[a]";
    let one = |rule| node(rule, 0, 3, vec![leaf(RuleTag::Var, 1, 2)]);
    assert_eq!(shown(text, &one(RuleTag::List)), "[ a ]");
    assert_eq!(shown(text, &one(RuleTag::Record)), "(| a |)");
    assert_eq!(shown(text, &one(RuleTag::TypeRecord)), "(| a |)");
    assert_eq!(shown(text, &one(RuleTag::TypeInlineCmd)), "[ a ] inline-cmd");
    assert_eq!(shown(text, &one(RuleTag::CmdTextArg)), "[ a ]");
}

#[test]
fn empty_brackets_are_a_bare_pair() {
    let text = "{  }";
    assert_eq!(shown(text, &leaf(RuleTag::List, 0, 4)), "[]");
    assert_eq!(shown(text, &leaf(RuleTag::Record, 0, 4)), "(||)");
    assert_eq!(shown(text, &leaf(RuleTag::TypeRecord, 0, 4)), "(||)");
    assert_eq!(shown(text, &leaf(RuleTag::TypeBlockCmd, 0, 4)), "[] block-cmd");
    assert_eq!(shown(text, &leaf(RuleTag::BlockText, 0, 4)), "<>");
    assert_eq!(shown(text, &leaf(RuleTag::CmdTextArg, 0, 4)), "{}");
    // Content of nothing but white space leaves a text argument empty.
    let blank = node(RuleTag::CmdTextArg, 0, 4, vec![leaf(RuleTag::Misc, 1, 1)]);
    assert_eq!(shown(text, &blank), "{}");
}

#[test]
fn text_argument_takes_the_delimiters_of_its_source() {
    let brace = node(RuleTag::CmdTextArg, 0, 3, vec![leaf(RuleTag::Var, 1, 2)]);
    assert_eq!(shown("{a}", &brace), "{ a }");
    let angle = node(RuleTag::CmdTextArg, 0, 3, vec![leaf(RuleTag::Var, 1, 2)]);
    assert_eq!(shown("<a>", &angle), "<\n    a\n>");
    let none = node(RuleTag::CmdTextArg, 0, 0, vec![leaf(RuleTag::Var, 1, 2)]);
    assert_eq!(shown("{a}", &none), " a ");
}

#[test]
fn block_text_is_always_stacked() {
    let quoted = node(RuleTag::BlockText, 0, 4, vec![leaf(RuleTag::Var, 2, 3)]);
    assert_eq!(shown("'<a>", &quoted), "'<\n    a\n>");
    let bare = node(RuleTag::BlockText, 1, 4, vec![leaf(RuleTag::Var, 2, 3)]);
    assert_eq!(shown("'<a>", &bare), "<\n    a\n>");
}

#[test]
fn content_that_opens_with_a_comment_is_stacked() {
    let arg = node(RuleTag::CmdTextArg, 0, 5, vec![leaf(RuleTag::Var, 1, 3)]);
    assert_eq!(shown("{%a }", &arg), "{\n    %a\n}");
}

#[test]
fn list_that_ends_with_a_brace_takes_no_semicolon() {
    let text = "[a; {b}]";
    let list = node(
        RuleTag::List,
        0,
        8,
        vec![leaf(RuleTag::Var, 1, 2), leaf(RuleTag::HorizontalText, 4, 7)],
    );
    assert_eq!(shown(text, &list), "[\n    a;\n    {b}\n]");
}

#[test]
fn semicolon_that_closes_the_source_is_kept() {
    let text = "[a];";
    assert_eq!(shown(text, &node(RuleTag::List, 0, 4, vec![leaf(RuleTag::Var, 1, 2)])), "[ a ];");
    assert_eq!(
        shown(text, &node(RuleTag::Record, 0, 4, vec![leaf(RuleTag::Var, 1, 2)])),
        "(| a |);"
    );
    assert_eq!(
        shown(text, &node(RuleTag::TypeRecord, 0, 4, vec![leaf(RuleTag::Var, 1, 2)])),
        "(| a |)"
    );
    assert_eq!(shown(text, &node(RuleTag::Expr, 0, 4, vec![leaf(RuleTag::Var, 1, 2)])), "a;");
    assert_eq!(shown(text, &node(RuleTag::InlineCmd, 0, 4, vec![leaf(RuleTag::Var, 1, 2)])), "a;");
    assert_eq!(shown(text, &node(RuleTag::BlockCmd, 0, 4, vec![leaf(RuleTag::Var, 1, 2)])), "a;");
    assert_eq!(shown(text, &node(RuleTag::Expr, 0, 3, vec![leaf(RuleTag::Var, 1, 2)])), "a");
}

#[test]
fn expression_argument_keeps_its_parentheses() {
    let text = "(a)";
    assert_eq!(shown(text, &node(RuleTag::CmdExprArg, 0, 3, vec![expr_var(1, 2)])), "(a)");
    assert_eq!(shown(text, &node(RuleTag::CmdExprArg, 1, 2, vec![expr_var(1, 2)])), "a");
}

#[test]
fn containers_put_end_at_their_own_depth() {
    let text = "a";
    let inner = node(RuleTag::StructStmt, 0, 1, vec![leaf(RuleTag::Var, 0, 1)]);
    let outer = node(RuleTag::StructStmt, 0, 1, vec![inner]);
    assert_eq!(shown(text, &outer), "structstructa\n    end\nend");
}

#[test]
fn free_text_is_set_at_the_depth_of_its_parent() {
    let text = "{ a\n   b \n\n c }";
    let run = node(RuleTag::HorizontalSingle, 1, 14, vec![leaf(RuleTag::RegularText, 1, 14)]);
    let arg = node(RuleTag::CmdTextArg, 0, 15, vec![run]);
    assert_eq!(shown(text, &arg), "{\n    a\n    b\n    c\n}");
}

#[test]
fn inline_run_spaces_a_command_as_its_source_does() {
    let text = "a \\b c\\d";
    let cmd = |start, end| {
        node(RuleTag::InlineCmd, start, end, vec![leaf(RuleTag::InlineCmdName, start, end)])
    };
    let run = node(
        RuleTag::HorizontalSingle,
        0,
        8,
        vec![
            leaf(RuleTag::RegularText, 0, 2),
            cmd(2, 4),
            leaf(RuleTag::RegularText, 4, 6),
            cmd(6, 8),
        ],
    );
    assert_eq!(shown(text, &run), "a \\bc\\d");
}

#[test]
fn inline_run_breaks_before_a_command_after_a_line_feed() {
    let text = "a\n  \\b";
    let run = node(
        RuleTag::HorizontalSingle,
        0,
        6,
        vec![
            leaf(RuleTag::RegularText, 0, 4),
            node(RuleTag::InlineCmd, 4, 6, vec![leaf(RuleTag::InlineCmdName, 4, 6)]),
        ],
    );
    assert_eq!(shown(text, &run), "a\n\\b");
}

#[test]
fn inline_run_breaks_before_a_long_command() {
    let name = format!("\\{}", "b".repeat(11));
    let text = format!("a {}", name);
    let run = node(
        RuleTag::HorizontalSingle,
        0,
        text.len(),
        vec![
            leaf(RuleTag::RegularText, 0, 2),
            node(RuleTag::InlineCmd, 2, text.len(), vec![leaf(RuleTag::InlineCmdName, 2, text.len())]),
        ],
    );
    let narrow = OptionData::new(11, 2);
    assert_eq!(render(&text, &run, &narrow), format!("a\n{}", name));
    let wide = OptionData::new(12, 2);
    assert_eq!(render(&text, &run, &wide), format!("a {}", name));
}

#[test]
fn inline_run_keeps_a_gap_between_pieces_that_are_no_text() {
    let text = "`a` `b`";
    let run = |gap_end| {
        node(
            RuleTag::HorizontalSingle,
            0,
            7,
            vec![
                leaf(RuleTag::ConstString, 0, 3),
                leaf(RuleTag::RegularText, 3, gap_end),
                leaf(RuleTag::ConstString, 4, 7),
            ],
        )
    };
    assert_eq!(shown(text, &run(4)), "`a` `b`");
    let text = "`a`\n`b`";
    assert_eq!(shown(text, &run(4)), "`a`\n`b`");
}

#[test]
fn inline_run_drops_blank_text_at_its_end() {
    let text = "`a`  ";
    let run = node(
        RuleTag::HorizontalSingle,
        0,
        5,
        vec![leaf(RuleTag::ConstString, 0, 3), leaf(RuleTag::RegularText, 3, 5)],
    );
    assert_eq!(shown(text, &run), "`a`");
}

#[test]
fn inline_run_puts_a_comment_on_a_new_line() {
    let text = "a %c\nb";
    let run = node(
        RuleTag::HorizontalSingle,
        0,
        6,
        vec![
            leaf(RuleTag::RegularText, 0, 2),
            leaf(RuleTag::Comments, 2, 4),
            leaf(RuleTag::RegularText, 4, 6),
        ],
    );
    assert_eq!(shown(text, &run), "a\n%c\nb");
}

#[test]
fn options_set_the_indentation_step() {
    let text = "[a; b]";
    let list = node(RuleTag::List, 0, 6, vec![leaf(RuleTag::Var, 1, 2), leaf(RuleTag::Var, 4, 5)]);
    assert_eq!(render(text, &list, &OptionData::new(80, 2)), "[\n  a;\n  b;\n]");
    assert_eq!(render(text, &list, &OptionData::new(80, 0)), "[\na;\nb;\n]");
}

#[test]
fn options_set_the_row_length() {
    let text = "{abcde}";
    let arg = node(RuleTag::CmdTextArg, 0, 7, vec![leaf(RuleTag::Var, 1, 6)]);
    assert_eq!(render(text, &arg, &OptionData::new(9, 4)), "{ abcde }");
    assert_eq!(render(text, &arg, &OptionData::new(8, 4)), "{\n    abcde\n}");
}

#[test]
fn default_options() {
    let options = OptionData::default();
    assert_eq!(options.row_length, 80);
    assert_eq!(options.indent_space, 4);
    assert_eq!(options, OptionData::new(80, 4));
}

#[test]
fn indentation_is_width_times_depth_spaces() {
    assert_eq!(satysfi_formatter::indent_space(4, 0), "");
    assert_eq!(satysfi_formatter::indent_space(4, 1), "    ");
    assert_eq!(satysfi_formatter::indent_space(4, 3), "            ");
    assert_eq!(satysfi_formatter::indent_space(2, 3), "      ");
    assert_eq!(satysfi_formatter::indent_space(0, 5), "");
}
