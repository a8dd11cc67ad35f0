//! Joining the renderings of a node's children: which separator a rule puts
//! between them, and, rule by rule, what one more child adds to the text
//! gathered so far.
use crate::indent::{indent_text, newline_at};
use crate::options::OptionData;
use crate::source::{span_text, SourceText};
use crate::text::{
    append, append_str, blank, has_char, has_prefix, has_suffix, is_blank, same_text,
    trailing_space, trailing_space_breaks, trim, trim_end, trim_end_of, trim_of, trim_start,
    trim_start_of,
};
use crate::tree::{trees_of, RuleTag, SyntaxNode, SyntaxTree};
use crate::unicode::{exceeds, is_space, is_whitespace, utf8_len};
use crate::words::{spelling, ReservedWord};
use vstd::prelude::*;

verus! {

/// The ways in which a rule joins its children.
#[derive(Clone, Copy, Debug, PartialEq, Eq, Structural)]
pub enum JoinKind {
    /// A definition: names, an optional type, a value.
    Binding,
    /// A unary expression.
    Unary,
    /// A function literal.
    Lambda,
    /// A field of a record: a name and a value.
    RecordUnit,
    /// A field of a record type: a name and a type.
    TypeRecordUnit,
    /// A type constructor applied to arguments.
    TypeApplication,
    /// A function applied to arguments.
    Application,
    /// A definition followed by the expression it is in force for.
    Bind,
    /// A chain of argument types that ends in a result type.
    TypeChain,
    /// A module: a name, an optional signature, a structure.
    Module,
    /// The members of a structure or of a signature.
    Members,
    /// A run of inline text and inline commands.
    Inline,
    /// The statements at the top of a file.
    Preamble,
    /// Children one after another, with the rule's separator.
    Plain,
}

/// How the children of a node of rule `rule` are joined.
pub open spec fn join_kind(rule: RuleTag) -> JoinKind {
    match rule {
        RuleTag::LetBlockStmtCtx
        | RuleTag::LetBlockStmtNoctx
        | RuleTag::LetInlineStmtCtx
        | RuleTag::LetInlineStmtNoctx
        | RuleTag::LetStmt
        | RuleTag::LetRecStmt
        | RuleTag::LetMutableStmt
        | RuleTag::SigValStmt
        | RuleTag::SigDirectStmt
        | RuleTag::TypeStmt
        | RuleTag::LetMathStmt => JoinKind::Binding,
        RuleTag::Unary => JoinKind::Unary,
        RuleTag::Lambda => JoinKind::Lambda,
        RuleTag::RecordUnit => JoinKind::RecordUnit,
        RuleTag::TypeRecordUnit => JoinKind::TypeRecordUnit,
        RuleTag::TypeApplication => JoinKind::TypeApplication,
        RuleTag::Application => JoinKind::Application,
        RuleTag::BindStmt => JoinKind::Bind,
        RuleTag::TypeExpr => JoinKind::TypeChain,
        RuleTag::ModuleStmt => JoinKind::Module,
        RuleTag::StructStmt | RuleTag::SigStmt => JoinKind::Members,
        RuleTag::HorizontalSingle => JoinKind::Inline,
        RuleTag::Preamble => JoinKind::Preamble,
        _ => JoinKind::Plain,
    }
}

/// Finds how the children of a node of rule `rule` are joined.
pub fn join_kind_of(rule: RuleTag) -> (kind: JoinKind)
    ensures
        kind == join_kind(rule),
{
    match rule {
        RuleTag::LetBlockStmtCtx
        | RuleTag::LetBlockStmtNoctx
        | RuleTag::LetInlineStmtCtx
        | RuleTag::LetInlineStmtNoctx
        | RuleTag::LetStmt
        | RuleTag::LetRecStmt
        | RuleTag::LetMutableStmt
        | RuleTag::SigValStmt
        | RuleTag::SigDirectStmt
        | RuleTag::TypeStmt
        | RuleTag::LetMathStmt => JoinKind::Binding,
        RuleTag::Unary => JoinKind::Unary,
        RuleTag::Lambda => JoinKind::Lambda,
        RuleTag::RecordUnit => JoinKind::RecordUnit,
        RuleTag::TypeRecordUnit => JoinKind::TypeRecordUnit,
        RuleTag::TypeApplication => JoinKind::TypeApplication,
        RuleTag::Application => JoinKind::Application,
        RuleTag::BindStmt => JoinKind::Bind,
        RuleTag::TypeExpr => JoinKind::TypeChain,
        RuleTag::ModuleStmt => JoinKind::Module,
        RuleTag::StructStmt | RuleTag::SigStmt => JoinKind::Members,
        RuleTag::HorizontalSingle => JoinKind::Inline,
        RuleTag::Preamble => JoinKind::Preamble,
        _ => JoinKind::Plain,
    }
}

/// The separator that a rule puts between its children when they are joined
/// plainly: a space inside commands, type products and applications, and
/// operator expressions; a line break at the current indentation between
/// block commands and bullet items; a semicolon and such a line break between
/// the items of lists, records and typed command parameters; nothing
/// elsewhere. `newline` is the line break at the current indentation.
pub open spec fn separator(rule: RuleTag, newline: Seq<char>) -> Seq<char> {
    match rule {
        RuleTag::BlockCmd
        | RuleTag::InlineCmd
        | RuleTag::TypeProd
        | RuleTag::TypeApplication
        | RuleTag::DyadicExpr
        | RuleTag::MatchExpr
        | RuleTag::UnaryOperatorExpr => " "@,
        RuleTag::Vertical | RuleTag::HorizontalBulletList => newline,
        RuleTag::Record
        | RuleTag::TypeRecord
        | RuleTag::List
        | RuleTag::TypeBlockCmd
        | RuleTag::TypeInlineCmd
        | RuleTag::TypeMathCmd => ";"@ + newline,
        _ => Seq::empty(),
    }
}

/// Builds the separator of `rule`.
pub fn separator_of(rule: RuleTag, newline: &Vec<char>) -> (sep: Vec<char>)
    ensures
        sep@ == separator(rule, newline@),
{
    let mut sep: Vec<char> = Vec::new();
    match rule {
        RuleTag::BlockCmd
        | RuleTag::InlineCmd
        | RuleTag::TypeProd
        | RuleTag::TypeApplication
        | RuleTag::DyadicExpr
        | RuleTag::MatchExpr
        | RuleTag::UnaryOperatorExpr => {
            append_str(&mut sep, " ");
        },
        RuleTag::Vertical | RuleTag::HorizontalBulletList => {
            append(&mut sep, newline);
        },
        RuleTag::Record
        | RuleTag::TypeRecord
        | RuleTag::List
        | RuleTag::TypeBlockCmd
        | RuleTag::TypeInlineCmd
        | RuleTag::TypeMathCmd => {
            append_str(&mut sep, ";");
            append(&mut sep, newline);
        },
        _ => {},
    }
    sep
}

/// The text gathered from the children joined so far, with one mark: in a
/// plain join and among the statements at the top of a file, that the last
/// child joined was a comment; in an application, that arguments are set off
/// by spaces.
pub struct Joined {
    pub text: Seq<char>,
    pub mark: bool,
}

/// What joining starts from: the word `fun` for a function literal, nothing
/// for every other rule.
pub open spec fn join_start(rule: RuleTag) -> Joined {
    Joined {
        text: if rule == RuleTag::Lambda {
            spelling(ReservedWord::Fun)
        } else {
            Seq::empty()
        },
        mark: false,
    }
}

/// A value that spans several lines and is not a quoted block is moved to a
/// line of its own below its definition.
pub open spec fn breaks_binding(s: Seq<char>) -> bool {
    !"'<"@.is_prefix_of(s) && s.contains('\n')
}

/// A definition takes one more child on the same line: a type after `: `, a
/// value after ` = `, a comment as it is, anything else after a space.
pub open spec fn binding_beside(a: Seq<char>, r: RuleTag, s: Seq<char>) -> Seq<char> {
    match r {
        RuleTag::TypeExpr => a + ": "@ + s,
        RuleTag::Expr => a + " = "@ + s,
        RuleTag::Comments => a + s,
        _ => a + " "@ + s,
    }
}

/// A definition takes its value on a line of its own: after ` =`, a line
/// break and one level more of indentation stands `deeper`, the rendering of
/// the value one level deeper, without its leading white space.
pub open spec fn binding_below(
    a: Seq<char>,
    deeper: Seq<char>,
    newline: Seq<char>,
    level: Seq<char>,
) -> Seq<char> {
    a + " ="@ + newline + level + trim_start(deeper)
}

/// A definition takes one more child: a value that `breaks_binding` goes
/// below, every other child stands beside what was gathered.
pub open spec fn after_binding(
    a: Seq<char>,
    r: RuleTag,
    s: Seq<char>,
    deeper: Seq<char>,
    newline: Seq<char>,
    level: Seq<char>,
) -> Seq<char> {
    if r == RuleTag::Expr && breaks_binding(s) {
        binding_below(a, deeper, newline, level)
    } else {
        binding_beside(a, r, s)
    }
}

/// A unary expression takes one more child: an operator or an expression in
/// parentheses, anything else as it is.
pub open spec fn after_unary(a: Seq<char>, r: RuleTag, s: Seq<char>) -> Seq<char> {
    if r == RuleTag::UnaryOperator || r == RuleTag::Expr {
        a + "("@ + s + ")"@
    } else {
        a + s
    }
}

/// A function literal takes one more child: a parameter pattern after a
/// space, a comment as it is, anything else after ` -> `.
pub open spec fn after_lambda(a: Seq<char>, r: RuleTag, s: Seq<char>) -> Seq<char> {
    match r {
        RuleTag::Pattern => a + " "@ + s,
        RuleTag::Comments => a + s,
        _ => a + " -> "@ + s,
    }
}

/// A record field takes one more child: the first text as it is; after that
/// a name after a space, a value after ` = `, anything else as it is.
pub open spec fn after_record_unit(a: Seq<char>, r: RuleTag, s: Seq<char>) -> Seq<char> {
    if a.len() == 0 {
        s
    } else {
        match r {
            RuleTag::VarPtn => a + " "@ + s,
            RuleTag::Expr => a + " = "@ + s,
            _ => a + s,
        }
    }
}

/// A field of a record type takes one more child: the first text as it is;
/// after that a name after a space, a type after `: `, anything else as it
/// is.
pub open spec fn after_type_record_unit(a: Seq<char>, r: RuleTag, s: Seq<char>) -> Seq<char> {
    if a.len() == 0 {
        s
    } else {
        match r {
            RuleTag::Var => a + " "@ + s,
            RuleTag::TypeExpr => a + ": "@ + s,
            _ => a + s,
        }
    }
}

/// A type application takes one more child, after a space unless it is the
/// first text: a type expression in parentheses, anything else as it is.
pub open spec fn after_type_application(a: Seq<char>, r: RuleTag, s: Seq<char>) -> Seq<char> {
    let spaced = if a.len() == 0 {
        a
    } else {
        a + " "@
    };
    if r == RuleTag::TypeExpr {
        spaced + "("@ + s + ")"@
    } else {
        spaced + s
    }
}

/// An application takes one more child. The first child is the callee: its
/// text opens the application, and arguments are set off by spaces unless it
/// reads `document`. Each later child is an argument, after a space where
/// arguments are set off.
pub open spec fn after_application(acc: Joined, i: int, s: Seq<char>) -> Joined {
    if i == 0 {
        Joined { text: s, mark: s != "document"@ }
    } else if acc.mark {
        Joined { text: acc.text + " "@ + s, mark: true }
    } else {
        Joined { text: acc.text + s, mark: false }
    }
}

/// A `let ... in` form takes one more child: the first text as it is; after
/// that an expression after ` in `, or, where the text gathered so far spans
/// several lines, after ` in` and a line break, both sides trimmed where they
/// meet; anything else as it is.
pub open spec fn after_bind(a: Seq<char>, r: RuleTag, s: Seq<char>, newline: Seq<char>) -> Seq<
    char,
> {
    if a.len() == 0 {
        s
    } else if r == RuleTag::Expr {
        if a.contains('\n') {
            trim_end(a) + " in"@ + newline + trim_start(s)
        } else {
            a + " in "@ + s
        }
    } else {
        a + s
    }
}

/// A chain of types takes one more child: the first text as it is; after that
/// an optional argument after ` ?-> `, an argument or result after ` -> `, a
/// comment as it is, anything else after a space.
pub open spec fn after_type_chain(a: Seq<char>, r: RuleTag, s: Seq<char>) -> Seq<char> {
    if a.len() == 0 {
        s
    } else {
        match r {
            RuleTag::TypeOptional => a + " ?-> "@ + s,
            RuleTag::TypeProd => a + " -> "@ + s,
            RuleTag::Comments => a + s,
            _ => a + " "@ + s,
        }
    }
}

/// A module takes one more child: its name after a space, its signature
/// after `: `, its structure after ` = `, anything else as it is.
pub open spec fn after_module(a: Seq<char>, r: RuleTag, s: Seq<char>) -> Seq<char> {
    match r {
        RuleTag::ModuleName => a + " "@ + s,
        RuleTag::SigStmt => a + ": "@ + s,
        RuleTag::StructStmt => a + " = "@ + s,
        _ => a + s,
    }
}

/// A structure or signature takes one more member: a comment as it is; any
/// other member on a new line, unless it is the first text or the text
/// gathered so far ends with the word `in`.
pub open spec fn after_member(a: Seq<char>, r: RuleTag, s: Seq<char>) -> Seq<char> {
    if r == RuleTag::Comments || a.len() == 0 || spelling(ReservedWord::In).is_suffix_of(a) {
        a + s
    } else {
        a + "\n"@ + s
    }
}

/// The statements at the top of a file take one more child. A comment follows
/// the text before it at once and as it is, so that its own line break ends
/// its line. A statement is trimmed; an empty one adds nothing; the first
/// text stands as it is; right after a comment a statement follows at once,
/// and one blank line parts it from a statement before it.
pub open spec fn after_statement(acc: Joined, r: RuleTag, s: Seq<char>) -> Joined {
    let t = trim(s);
    if r == RuleTag::Comments {
        Joined { text: acc.text + s, mark: true }
    } else if t.len() == 0 {
        acc
    } else if acc.text.len() == 0 || acc.mark {
        Joined { text: acc.text + t, mark: false }
    } else {
        Joined { text: acc.text + "\n\n"@ + t, mark: false }
    }
}

/// What follows the statements at the top of a document: the word `in` on a
/// line of its own, and a blank line.
pub open spec fn preamble_close() -> Seq<char> {
    "\n"@ + spelling(ReservedWord::In) + "\n\n"@
}

/// A plain join takes one more child. Right after a comment the child follows
/// as it is, since the comment brings its own line break; the first text
/// stands as it is; an empty child adds nothing; any other child follows the
/// separator. `closes_preamble` holds for the statements at the top of a
/// document, which `preamble_close` follows.
pub open spec fn after_plain(
    acc: Joined,
    r: RuleTag,
    s: Seq<char>,
    sep: Seq<char>,
    closes_preamble: bool,
) -> Joined {
    let comment = r == RuleTag::Comments;
    let next = if acc.mark {
        Joined { text: acc.text + s, mark: comment }
    } else if acc.text.len() == 0 {
        Joined { text: s, mark: comment }
    } else if s.len() == 0 {
        acc
    } else {
        Joined { text: acc.text + sep + s, mark: comment }
    };
    if closes_preamble {
        Joined { text: next.text + preamble_close(), mark: next.mark }
    } else {
        next
    }
}

/// Free text and inline commands are the pieces of a run of inline text.
pub open spec fn is_inline_piece(r: RuleTag) -> bool {
    r == RuleTag::RegularText || r == RuleTag::InlineCmd
}

/// A text that ends in white space.
pub open spec fn ends_in_space(s: Seq<char>) -> bool {
    s.len() > 0 && is_space(s.last())
}

/// A run of inline text takes child `i` of `kids`, rendered as `s`. The first
/// text stands as it is. An inline command after free text or another inline
/// command follows directly where the source of the piece before it does not
/// end in white space; where it does, on a new line if that white space
/// holds a line feed or the command is longer than `row_length` bytes, else
/// after a space. A blank piece before something that is no piece of the run leaves a
/// line break if its source holds one, else a space. Any other blank child
/// adds nothing. A comment, and a child whose source opens with a line feed,
/// go on a new line. Everything else follows directly.
pub open spec fn after_inline(
    text: Seq<char>,
    kids: Seq<SyntaxTree>,
    i: int,
    a: Seq<char>,
    s: Seq<char>,
    newline: Seq<char>,
    row_length: nat,
) -> Seq<char> {
    let cur = kids[i];
    let source = span_text(text, cur.span);
    if a.len() == 0 {
        s
    } else if i > 0 && is_inline_piece(kids[i - 1].rule) && cur.rule == RuleTag::InlineCmd {
        let before = span_text(text, kids[i - 1].span);
        if !ends_in_space(before) {
            a + s
        } else if trailing_space(before).contains('\n') || utf8_len(s) > row_length {
            trim_end(a) + newline + s
        } else {
            a + " "@ + s
        }
    } else if i + 1 < kids.len() && is_inline_piece(cur.rule) && !is_inline_piece(kids[i + 1].rule)
        && is_blank(s) {
        if source.contains('\n') {
            trim_end(a) + newline + s
        } else {
            a + " "@ + s
        }
    } else if is_blank(s) {
        a
    } else if cur.rule == RuleTag::Comments || (source.len() > 0 && source[0] == '\n') {
        trim_end(a) + newline + s
    } else {
        a + s
    }
}

/// The text gathered after child `i` of `node` has been joined to `acc`, at
/// nesting `depth`. `s` is the rendering of that child at `depth`, `deeper`
/// its rendering one level deeper.
pub open spec fn join_step(
    text: Seq<char>,
    node: SyntaxTree,
    depth: nat,
    options: OptionData,
    i: int,
    acc: Joined,
    s: Seq<char>,
    deeper: Seq<char>,
) -> Joined {
    let r = node.children[i].rule;
    let width = options.indent_space as nat;
    let newline = newline_at(width, depth);
    match join_kind(node.rule) {
        JoinKind::Binding => Joined {
            text: after_binding(acc.text, r, s, deeper, newline, indent_text(width, 1)),
            mark: false,
        },
        JoinKind::Unary => Joined { text: after_unary(acc.text, r, s), mark: false },
        JoinKind::Lambda => Joined { text: after_lambda(acc.text, r, s), mark: false },
        JoinKind::RecordUnit => Joined { text: after_record_unit(acc.text, r, s), mark: false },
        JoinKind::TypeRecordUnit => Joined {
            text: after_type_record_unit(acc.text, r, s),
            mark: false,
        },
        JoinKind::TypeApplication => Joined {
            text: after_type_application(acc.text, r, s),
            mark: false,
        },
        JoinKind::Application => after_application(acc, i, s),
        JoinKind::Bind => Joined { text: after_bind(acc.text, r, s, newline), mark: false },
        JoinKind::TypeChain => Joined { text: after_type_chain(acc.text, r, s), mark: false },
        JoinKind::Module => Joined { text: after_module(acc.text, r, s), mark: false },
        JoinKind::Members => Joined { text: after_member(acc.text, r, s), mark: false },
        JoinKind::Inline => Joined {
            text: after_inline(
                text,
                node.children,
                i,
                acc.text,
                s,
                newline,
                options.row_length as nat,
            ),
            mark: false,
        },
        JoinKind::Preamble => after_statement(acc, r, s),
        JoinKind::Plain => after_plain(
            acc,
            r,
            s,
            separator(node.rule, newline),
            node.rule == RuleTag::ProgramSaty && r == RuleTag::Preamble,
        ),
    }
}

/// What a rule makes of the text joined from all its children: a module puts
/// the word `module` and a space before the trimmed text; a structure or
/// signature drops trailing white space; a run of inline text drops white
/// space at both ends; every other rule leaves the text as it is.
pub open spec fn join_finish(rule: RuleTag, a: Seq<char>) -> Seq<char> {
    match join_kind(rule) {
        JoinKind::Module => spelling(ReservedWord::Module) + " "@ + trim(a),
        JoinKind::Members => trim_end(a),
        JoinKind::Inline => trim(a),
        _ => a,
    }
}

/// The text `acc`, then `mid`, then `s`.
fn joined_by(acc: Vec<char>, mid: &str, s: &Vec<char>) -> (out: Vec<char>)
    ensures
        out@ == acc@ + mid@ + s@,
{
    let mut out = acc;
    append_str(&mut out, mid);
    append(&mut out, s);
    out
}

/// The text `acc`, then `s`.
fn followed_by(acc: Vec<char>, s: &Vec<char>) -> (out: Vec<char>)
    ensures
        out@ == acc@ + s@,
{
    let mut out = acc;
    append(&mut out, s);
    out
}

/// The text `acc` without trailing white space, then `newline`, then `s`.
fn on_new_line(acc: &Vec<char>, newline: &Vec<char>, s: &Vec<char>) -> (out: Vec<char>)
    ensures
        out@ == trim_end(acc@) + newline@ + s@,
{
    let mut out = trim_end_of(acc);
    append(&mut out, newline);
    append(&mut out, s);
    out
}

/// The text `acc`, then `s` in parentheses.
fn in_parentheses(acc: Vec<char>, s: &Vec<char>) -> (out: Vec<char>)
    ensures
        out@ == acc@ + "("@ + s@ + ")"@,
{
    let mut out = acc;
    append_str(&mut out, "(");
    append(&mut out, s);
    append_str(&mut out, ")");
    out
}

/// Tells whether a value goes below its definition.
pub fn binding_breaks(s: &Vec<char>) -> (b: bool)
    ensures
        b == breaks_binding(s@),
{
    !has_prefix(s, "'<") && has_char(s, '\n')
}

/// Joins one more child to a definition on the same line.
pub fn join_binding(acc: Vec<char>, r: RuleTag, s: &Vec<char>) -> (out: Vec<char>)
    ensures
        out@ == binding_beside(acc@, r, s@),
{
    match r {
        RuleTag::TypeExpr => joined_by(acc, ": ", s),
        RuleTag::Expr => joined_by(acc, " = ", s),
        RuleTag::Comments => followed_by(acc, s),
        _ => joined_by(acc, " ", s),
    }
}

/// Joins a value to a definition on a line of its own.
pub fn join_binding_below(
    acc: Vec<char>,
    deeper: &Vec<char>,
    newline: &Vec<char>,
    level: &Vec<char>,
) -> (out: Vec<char>)
    ensures
        out@ == binding_below(acc@, deeper@, newline@, level@),
{
    let mut out = acc;
    append_str(&mut out, " =");
    append(&mut out, newline);
    append(&mut out, level);
    let value = trim_start_of(deeper);
    append(&mut out, &value);
    out
}

/// Joins one more child to a unary expression.
pub fn join_unary(acc: Vec<char>, r: RuleTag, s: &Vec<char>) -> (out: Vec<char>)
    ensures
        out@ == after_unary(acc@, r, s@),
{
    if r == RuleTag::UnaryOperator || r == RuleTag::Expr {
        in_parentheses(acc, s)
    } else {
        followed_by(acc, s)
    }
}

/// Joins one more child to a function literal.
pub fn join_lambda(acc: Vec<char>, r: RuleTag, s: &Vec<char>) -> (out: Vec<char>)
    ensures
        out@ == after_lambda(acc@, r, s@),
{
    match r {
        RuleTag::Pattern => joined_by(acc, " ", s),
        RuleTag::Comments => followed_by(acc, s),
        _ => joined_by(acc, " -> ", s),
    }
}

/// Joins one more child to a record field.
pub fn join_record_unit(acc: Vec<char>, r: RuleTag, s: &Vec<char>) -> (out: Vec<char>)
    ensures
        out@ == after_record_unit(acc@, r, s@),
{
    if acc.len() == 0 {
        followed_by(acc, s)
    } else {
        match r {
            RuleTag::VarPtn => joined_by(acc, " ", s),
            RuleTag::Expr => joined_by(acc, " = ", s),
            _ => followed_by(acc, s),
        }
    }
}

/// Joins one more child to a field of a record type.
pub fn join_type_record_unit(acc: Vec<char>, r: RuleTag, s: &Vec<char>) -> (out: Vec<char>)
    ensures
        out@ == after_type_record_unit(acc@, r, s@),
{
    if acc.len() == 0 {
        followed_by(acc, s)
    } else {
        match r {
            RuleTag::Var => joined_by(acc, " ", s),
            RuleTag::TypeExpr => joined_by(acc, ": ", s),
            _ => followed_by(acc, s),
        }
    }
}

/// Joins one more child to a type application.
pub fn join_type_application(acc: Vec<char>, r: RuleTag, s: &Vec<char>) -> (out: Vec<char>)
    ensures
        out@ == after_type_application(acc@, r, s@),
{
    let mut out = acc;
    if out.len() > 0 {
        append_str(&mut out, " ");
    }
    if r == RuleTag::TypeExpr {
        in_parentheses(out, s)
    } else {
        followed_by(out, s)
    }
}

/// Joins one more child to an application.
pub fn join_application(acc: Vec<char>, mark: bool, i: usize, s: &Vec<char>) -> (out: (
    Vec<char>,
    bool,
))
    ensures
        (Joined { text: out.0@, mark: out.1 }) == after_application(
            Joined { text: acc@, mark },
            i as int,
            s@,
        ),
{
    if i == 0 {
        let spaced = !same_text(s, "document");
        let mut out: Vec<char> = Vec::new();
        append(&mut out, s);
        (out, spaced)
    } else if mark {
        (joined_by(acc, " ", s), true)
    } else {
        (followed_by(acc, s), false)
    }
}

/// Joins one more child to a `let ... in` form.
pub fn join_bind(acc: Vec<char>, r: RuleTag, s: &Vec<char>, newline: &Vec<char>) -> (out: Vec<
    char,
>)
    ensures
        out@ == after_bind(acc@, r, s@, newline@),
{
    if acc.len() == 0 {
        followed_by(acc, s)
    } else if r == RuleTag::Expr {
        if has_char(&acc, '\n') {
            let mut out = trim_end_of(&acc);
            append_str(&mut out, " in");
            append(&mut out, newline);
            let value = trim_start_of(s);
            append(&mut out, &value);
            out
        } else {
            joined_by(acc, " in ", s)
        }
    } else {
        followed_by(acc, s)
    }
}

/// Joins one more child to a chain of types.
pub fn join_type_chain(acc: Vec<char>, r: RuleTag, s: &Vec<char>) -> (out: Vec<char>)
    ensures
        out@ == after_type_chain(acc@, r, s@),
{
    if acc.len() == 0 {
        followed_by(acc, s)
    } else {
        match r {
            RuleTag::TypeOptional => joined_by(acc, " ?-> ", s),
            RuleTag::TypeProd => joined_by(acc, " -> ", s),
            RuleTag::Comments => followed_by(acc, s),
            _ => joined_by(acc, " ", s),
        }
    }
}

/// Joins one more child to a module.
pub fn join_module(acc: Vec<char>, r: RuleTag, s: &Vec<char>) -> (out: Vec<char>)
    ensures
        out@ == after_module(acc@, r, s@),
{
    match r {
        RuleTag::ModuleName => joined_by(acc, " ", s),
        RuleTag::SigStmt => joined_by(acc, ": ", s),
        RuleTag::StructStmt => joined_by(acc, " = ", s),
        _ => followed_by(acc, s),
    }
}

/// Joins one more member to a structure or signature.
pub fn join_member(acc: Vec<char>, r: RuleTag, s: &Vec<char>) -> (out: Vec<char>)
    ensures
        out@ == after_member(acc@, r, s@),
{
    if r == RuleTag::Comments || acc.len() == 0 || has_suffix(&acc, ReservedWord::In.text()) {
        followed_by(acc, s)
    } else {
        joined_by(acc, "\n", s)
    }
}

/// Joins one more child to the statements at the top of a file.
pub fn join_statement(acc: Vec<char>, mark: bool, r: RuleTag, s: &Vec<char>) -> (out: (
    Vec<char>,
    bool,
))
    ensures
        (Joined { text: out.0@, mark: out.1 }) == after_statement(
            Joined { text: acc@, mark },
            r,
            s@,
        ),
{
    if r == RuleTag::Comments {
        return (followed_by(acc, s), true);
    }
    let t = trim_of(s);
    if t.len() == 0 {
        (acc, mark)
    } else if acc.len() == 0 || mark {
        (followed_by(acc, &t), false)
    } else {
        (joined_by(acc, "\n\n", &t), false)
    }
}

/// Joins one more child plainly.
pub fn join_plain(
    acc: Vec<char>,
    mark: bool,
    r: RuleTag,
    s: &Vec<char>,
    sep: &Vec<char>,
    closes_preamble: bool,
) -> (out: (Vec<char>, bool))
    ensures
        (Joined { text: out.0@, mark: out.1 }) == after_plain(
            Joined { text: acc@, mark },
            r,
            s@,
            sep@,
            closes_preamble,
        ),
{
    let comment = r == RuleTag::Comments;
    let (mut text, next_mark) = if mark {
        (followed_by(acc, s), comment)
    } else if acc.len() == 0 {
        (followed_by(acc, s), comment)
    } else if s.len() == 0 {
        (acc, mark)
    } else {
        let mut out = acc;
        append(&mut out, sep);
        append(&mut out, s);
        (out, comment)
    };
    if closes_preamble {
        let mut close: Vec<char> = Vec::new();
        append_str(&mut close, "\n");
        append_str(&mut close, ReservedWord::In.text());
        append_str(&mut close, "\n\n");
        append(&mut text, &close);
    }
    (text, next_mark)
}

/// Tells whether a rule is a piece of a run of inline text.
pub fn inline_piece(r: RuleTag) -> (b: bool)
    ensures
        b == is_inline_piece(r),
{
    r == RuleTag::RegularText || r == RuleTag::InlineCmd
}

/// Joins child `i` of `kids` to a run of inline text.
pub fn join_inline(
    source: &SourceText,
    kids: &Vec<SyntaxNode>,
    i: usize,
    acc: Vec<char>,
    s: &Vec<char>,
    newline: &Vec<char>,
    row_length: usize,
) -> (out: Vec<char>)
    requires
        i < kids.len(),
    ensures
        out@ == after_inline(
            source@,
            trees_of(kids@),
            i as int,
            acc@,
            s@,
            newline@,
            row_length as nat,
        ),
{
    let cur = &kids[i];
    if acc.len() == 0 {
        followed_by(acc, s)
    } else if i > 0 && inline_piece(kids[i - 1].rule) && cur.rule == RuleTag::InlineCmd {
        let before = source.slice(kids[i - 1].span);
        let spaced = before.len() > 0 && is_whitespace(before[before.len() - 1]);
        if !spaced {
            followed_by(acc, s)
        } else if trailing_space_breaks(&before) || exceeds(s, row_length) {
            on_new_line(&acc, newline, s)
        } else {
            joined_by(acc, " ", s)
        }
    } else if i + 1 < kids.len() && inline_piece(cur.rule) && !inline_piece(kids[i + 1].rule)
        && blank(s) {
        let own = source.slice(cur.span);
        if has_char(&own, '\n') {
            on_new_line(&acc, newline, s)
        } else {
            joined_by(acc, " ", s)
        }
    } else if blank(s) {
        acc
    } else {
        let own = source.slice(cur.span);
        if cur.rule == RuleTag::Comments || (own.len() > 0 && own[0] == '\n') {
            on_new_line(&acc, newline, s)
        } else {
            followed_by(acc, s)
        }
    }
}

/// Makes of the text joined from all children what the rule asks for.
pub fn finish_join(rule: RuleTag, acc: Vec<char>) -> (out: Vec<char>)
    ensures
        out@ == join_finish(rule, acc@),
{
    match join_kind_of(rule) {
        JoinKind::Module => {
            let mut out: Vec<char> = Vec::new();
            append_str(&mut out, ReservedWord::Module.text());
            append_str(&mut out, " ");
            let body = trim_of(&acc);
            append(&mut out, &body);
            out
        },
        JoinKind::Members => trim_end_of(&acc),
        JoinKind::Inline => trim_of(&acc),
        _ => acc,
    }
}

} // verus!
