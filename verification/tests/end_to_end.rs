use satysfi_formatter::ParseError;

fn formatted(input: &str) -> String {
    match satysfi_formatter::format(input) {
        Ok(out) => out,
        Err(e) => panic!("no parse at {}:{}", e.line, e.column),
    }
}

#[test]
fn formats_a_single_binding() {
    assert_eq!(satysfi_formatter::format("let x = 1"), Ok("let x = 1\n".to_string()));
}

#[test]
fn record_with_two_fields_is_stacked() {
    assert_eq!(formatted("(| a = 1; b = 2 |)"), "(|\n    a = 1;\n    b = 2;\n|)\n");
}

#[test]
fn record_with_one_field_stays_on_its_line() {
    assert_eq!(formatted("(|a = 1|)"), "(| a = 1 |)\n");
}

#[test]
fn empty_brackets_hold_nothing() {
    assert_eq!(formatted("[ ]"), "[]\n");
    assert_eq!(formatted("(| |)"), "(||)\n");
    assert_eq!(formatted("'< >"), "'<>\n");
}

#[test]
fn list_items_stand_one_level_deeper() {
    assert_eq!(formatted("[1; 2]"), "[\n    1;\n    2;\n]\n");
    assert_eq!(formatted("[[1; 2]; 3]"), "[\n    [\n        1;\n        2;\n    ];\n    3;\n]\n");
}

#[test]
fn short_text_argument_stays_on_its_line() {
    assert_eq!(formatted("'<+p{word}>"), "'<\n    +p { word }\n>\n");
}

#[test]
fn text_argument_wraps_past_the_row_length() {
    // With a delimiter and a space on each side, 76 bytes of content make a
    // line of 80.
    let fits = "a".repeat(76);
    let long = "a".repeat(77);
    assert_eq!(
        formatted(&format!("'<+p{{{}}}>", fits)),
        format!("'<\n    +p {{ {} }}\n>\n", fits)
    );
    assert_eq!(
        formatted(&format!("'<+p{{{}}}>", long)),
        format!("'<\n    +p {{\n        {}\n    }}\n>\n", long)
    );
}

#[test]
fn row_length_counts_bytes() {
    // 25 characters of three bytes each and two of one make 77 bytes.
    let wide = format!("{}ab", "あ".repeat(25));
    assert_eq!(
        formatted(&format!("'<+p{{{}}}>", wide)),
        format!("'<\n    +p {{\n        {}\n    }}\n>\n", wide)
    );
    let narrow = format!("{}a", "あ".repeat(25));
    assert_eq!(
        formatted(&format!("'<+p{{{}}}>", narrow)),
        format!("'<\n    +p {{ {} }}\n>\n", narrow)
    );
}

#[test]
fn document_takes_its_arguments_without_spaces() {
    assert_eq!(
        formatted("document (| title = {Hello}; |) '<+p{Hi}>"),
        "document(| title = {Hello} |)'<\n    +p { Hi }\n>\n"
    );
}

#[test]
fn other_applications_space_their_arguments() {
    assert_eq!(formatted("f  x   y"), "f x y\n");
    assert_eq!(formatted("documents x"), "documents x\n");
}

#[test]
fn statements_are_parted_by_a_blank_line() {
    assert_eq!(formatted("let x = 1\nlet y = 2"), "let x = 1\n\nlet y = 2\n");
    assert_eq!(formatted("let x = 1\n\n\n\nlet y = 2"), "let x = 1\n\nlet y = 2\n");
}

#[test]
fn document_body_follows_the_preamble() {
    assert_eq!(formatted("let x = 1 in x"), "let x = 1\nin\n\nx\n");
}

#[test]
fn headers_come_first() {
    assert_eq!(
        formatted("@stage: 1\n@require: a\n@import: b\nlet x = 1"),
        "@stage: 1\n\n@require: a\n@import: b\n\nlet x = 1\n"
    );
    assert_eq!(formatted("@require:   stdja  \nlet x = 1"), "@require: stdja\n\nlet x = 1\n");
}

#[test]
fn output_ends_with_exactly_one_newline() {
    for input in ["let x = 1", "let x = 1\n", "let x = 1\n\n\n", "  let x = 1  \n \n"] {
        let out = formatted(input);
        assert!(out.ends_with('\n'));
        assert!(!out.ends_with("\n\n"));
        assert_eq!(out, "let x = 1\n");
    }
}

#[test]
fn long_value_goes_below_its_binding() {
    assert_eq!(
        formatted("let x = (| a = 1; b = 2 |)"),
        "let x =\n    (|\n        a = 1;\n        b = 2;\n    |)\n"
    );
}

#[test]
fn quoted_block_stays_beside_its_binding() {
    assert_eq!(formatted("let b = '<+p{a}>"), "let b = '<\n    +p { a }\n>\n");
}

#[test]
fn module_members_stand_one_level_deeper() {
    assert_eq!(
        formatted("module M : sig val x : int end = struct let x = 1 let y = 2 end"),
        "module M: sig\n    val x: int\nend = struct\n    let x = 1\n\n    let y = 2\nend\n"
    );
}

#[test]
fn lambda_opens_with_fun() {
    assert_eq!(formatted("let f = fun x y -> x"), "let f = fun x y -> x\n");
}

#[test]
fn operators_are_kept() {
    assert_eq!(formatted("1 + 2"), "1 + 2\n");
    assert_eq!(formatted("-x"), "- x\n");
    assert_eq!(formatted("not x"), "not x\n");
    assert_eq!(formatted("!x"), "!x\n");
    assert_eq!(formatted("let x = &y"), "let x = &y\n");
    assert_eq!(formatted("a  ::  b"), "a :: b\n");
}

#[test]
fn literals_are_kept_as_written() {
    assert_eq!(formatted("let s = `a  %  b`"), "let s = `a  %  b`\n");
    assert_eq!(formatted("let l = 12.5pt"), "let l = 12.5pt\n");
    assert_eq!(formatted("let h = 0xFF"), "let h = 0xFF\n");
    assert_eq!(formatted("let t = (1,   2)"), "let t = (1,   2)\n");
}

#[test]
fn trailing_semicolon_of_a_command_is_kept() {
    assert_eq!(formatted("'<+clear-page;>"), "'<\n    +clear-page;\n>\n");
}

#[test]
fn block_commands_stand_on_lines_of_their_own() {
    assert_eq!(formatted("'<+p{a}+p{b}>"), "'<\n    +p { a }\n    +p { b }\n>\n");
}

#[test]
fn free_text_lines_are_trimmed_and_indented() {
    assert_eq!(
        formatted("'<+p{\n   first line\n        second line   \n\n}>"),
        "'<\n    +p {\n        first line\n        second line\n    }\n>\n"
    );
}

#[test]
fn ideographic_space_counts_as_white_space() {
    assert_eq!(formatted("'<+p{\u{3000}あい\u{3000}}>"), "'<\n    +p { あい }\n>\n");
    assert_eq!(formatted("'<+p{あ\u{3000}い}>"), "'<\n    +p { あ\u{3000}い }\n>\n");
}

#[test]
fn inline_command_keeps_the_space_before_it() {
    assert_eq!(formatted("'<+p{a \\b{c} d}>"), "'<\n    +p { a \\b { c }d }\n>\n");
    assert_eq!(formatted("'<+p{a\\b{c}d}>"), "'<\n    +p { a\\b { c }d }\n>\n");
}

#[test]
fn inline_command_after_a_line_break_starts_a_line() {
    assert_eq!(
        formatted("'<+p{a\n\\b{c}}>"),
        "'<\n    +p {\n        a\n        \\b { c }\n    }\n>\n"
    );
}

#[test]
fn comment_between_statements_is_kept() {
    assert_eq!(formatted("let x = 1 % c\nlet y = 2"), "let x = 1% c\nlet y = 2\n");
    assert_eq!(
        formatted("let x = 1 % c\nlet y = 2 % d\nlet z = 3"),
        "let x = 1% c\nlet y = 2% d\nlet z = 3\n"
    );
    assert_eq!(formatted("% head  \nlet x = 1"), "% head\nlet x = 1\n");
}

#[test]
fn comment_after_a_member_is_followed_by_the_member_indentation() {
    assert_eq!(
        formatted("module M = struct\n  let x = 1 % first\n  let y = 2\nend"),
        "module M = struct\n    let x = 1% first\n    \n\n    let y = 2\nend\n"
    );
}

#[test]
fn comment_in_a_list_stands_with_the_items() {
    assert_eq!(formatted("[1; % one\n 2]"), "[\n    1;\n    % one\n    2;\n]\n");
}

#[test]
fn comment_in_text_starts_a_line() {
    assert_eq!(
        formatted("'<+p{a % c\n b}>"),
        "'<\n    +p {\n        a\n        % c\n        b\n    }\n>\n"
    );
}

#[test]
fn percent_inside_a_string_is_no_comment() {
    assert_eq!(formatted("let s = `100%` % real\n"), "let s = `100%`% real\n");
}

#[test]
fn rejected_input_reports_where_parsing_stopped() {
    assert_eq!(satysfi_formatter::format("let x ="), Err(ParseError { line: 0, column: 7 }));
    assert_eq!(
        satysfi_formatter::format("let x = 1\nlet y = )"),
        Err(ParseError { line: 1, column: 8 })
    );
    assert!(satysfi_formatter::format("").is_err());
}

#[test]
fn formatting_twice_changes_nothing() {
    for input in [
        "let x = 1",
        "(| a = 1; b = 2 |)",
        "[1; 2]",
        "let x = 1\nlet y = 2",
        "@require: a\n@import: b\nlet x = 1",
        "'<+p{word}>",
        "'<+p{a}+p{b}>",
        "let f = fun x y -> x",
        "let x = (| a = 1; b = 2 |)",
        "f x y",
    ] {
        let once = formatted(input);
        assert_eq!(formatted(&once), once);
    }
}
