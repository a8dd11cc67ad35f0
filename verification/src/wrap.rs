//! Rendering one node from the text joined from its children and from its
//! own source: which form each rule takes, and the forms themselves.
use crate::comment::{comment_line, comment_line_of};
use crate::indent::newline_at;
use crate::text::{
    append, append_str, blank, has_char, has_prefix, has_suffix, is_blank, reflow, reflow_of,
    trim, trim_of, trim_start, trim_start_of,
};
use crate::tree::RuleTag;
use crate::unicode::{exceeds, utf8_len};
use crate::words::{spelling, ReservedWord};
use vstd::prelude::*;

verus! {

/// The pairs of delimiters that enclose indented content.
#[derive(Clone, Copy, Debug, PartialEq, Eq, Structural)]
pub enum Bracket {
    /// The parameter types of a command type, `[` to `]`, before the word
    /// that names the kind of command.
    TypedCommand(ReservedWord),
    /// Quoted block text, `'<` to `>`.
    BlockText,
    /// A list, `[` to `]`.
    List,
    /// A record, `(|` to `|)`.
    Record,
    /// A record type, `(|` to `|)`.
    TypeRecord,
    /// A text argument of a command, in the delimiters its source has.
    TextArgument,
}

/// The forms that a rule's rendering can take.
#[derive(Clone, Copy, Debug, PartialEq, Eq, Structural)]
pub enum RenderKind {
    /// The node's source, unchanged.
    Verbatim,
    /// The node's source, trimmed.
    Trimmed,
    /// The text joined from the children, unchanged.
    Through,
    /// A comment, and the line break after it.
    Comment,
    /// The line that names the stage.
    Stage,
    /// The lines that name the packages a file needs.
    Headers,
    /// One line that requires a package.
    Require,
    /// One line that imports a file.
    Import,
    /// A statement on a line of its own, opened by a reserved word.
    Prefixed(ReservedWord),
    /// A signature or structure: a reserved word, the members one level
    /// deeper, and `end`.
    Container(ReservedWord),
    /// Content one level deeper between a pair of delimiters.
    Bracketed(Bracket),
    /// An expression argument of a command, in parentheses where its source
    /// has them.
    ExprArgument,
    /// The text joined from the children, and the semicolon that closes the
    /// source, if one does.
    Terminated,
    /// The mark of a bullet item.
    BulletStar,
    /// One space.
    Blank,
    /// Free text, its lines trimmed and set at the current indentation.
    FreeText,
    /// A whole file, or the statements at its top: the text joined from the
    /// children without leading white space.
    Root,
    /// Nothing: the rule has no rendering.
    Nothing,
}

/// The form that the rendering of a node of rule `rule` takes.
pub open spec fn render_kind(rule: RuleTag) -> RenderKind {
    match rule {
        RuleTag::TypeName
        | RuleTag::HorizontalText
        | RuleTag::MathText
        | RuleTag::Tuple
        | RuleTag::BinOperator
        | RuleTag::UnaryOperator
        | RuleTag::UnaryPrefix
        | RuleTag::ExprWithMod
        | RuleTag::Var
        | RuleTag::VarPtn
        | RuleTag::Modvar
        | RuleTag::ModCmdName
        | RuleTag::ModuleName
        | RuleTag::VariantName
        | RuleTag::CmdNamePtn
        | RuleTag::CmdExprOption
        | RuleTag::InlineCmdName
        | RuleTag::BlockCmdName
        | RuleTag::MathCmd
        | RuleTag::MathCmdName
        | RuleTag::MathCmdExprArg
        | RuleTag::MathCmdExprOption
        | RuleTag::Pattern
        | RuleTag::MatchExpr
        | RuleTag::HorizontalEscapedChar
        | RuleTag::ConstUnit
        | RuleTag::ConstBool
        | RuleTag::ConstInt
        | RuleTag::ConstFloat
        | RuleTag::ConstLength
        | RuleTag::ConstString => RenderKind::Verbatim,
        RuleTag::LetRecInner
        | RuleTag::LetRecMatcharm
        | RuleTag::TypeInner
        | RuleTag::TypeVariant
        | RuleTag::ModuleStmt
        | RuleTag::OpenStmt
        | RuleTag::Arg
        | RuleTag::TypeExpr
        | RuleTag::TypeOptional
        | RuleTag::TypeProd
        | RuleTag::TypeListUnitOptional
        | RuleTag::TypeApplication
        | RuleTag::TypeRecordUnit
        | RuleTag::TypeParam
        | RuleTag::Unary
        | RuleTag::RecordUnit
        | RuleTag::PatAs
        | RuleTag::PatCons
        | RuleTag::PatVariant
        | RuleTag::PatList
        | RuleTag::PatTuple
        | RuleTag::MatchArm
        | RuleTag::MatchGuard
        | RuleTag::BindStmt
        | RuleTag::CtrlWhile
        | RuleTag::CtrlIf
        | RuleTag::Lambda
        | RuleTag::Assignment
        | RuleTag::DyadicExpr
        | RuleTag::UnaryOperatorExpr
        | RuleTag::Application
        | RuleTag::ApplicationArgsNormal
        | RuleTag::ApplicationArgsOptional
        | RuleTag::CommandApplication
        | RuleTag::VariantConstructor
        | RuleTag::HorizontalSingle
        | RuleTag::HorizontalList
        | RuleTag::HorizontalBulletList
        | RuleTag::HorizontalBullet
        | RuleTag::InlineTextEmbedding
        | RuleTag::Vertical
        | RuleTag::BlockTextEmbedding => RenderKind::Through,
        RuleTag::Pkgname => RenderKind::Trimmed,
        RuleTag::Comments => RenderKind::Comment,
        RuleTag::Stage => RenderKind::Stage,
        RuleTag::Headers => RenderKind::Headers,
        RuleTag::HeaderRequire => RenderKind::Require,
        RuleTag::HeaderImport => RenderKind::Import,
        RuleTag::LetStmt => RenderKind::Prefixed(ReservedWord::Let),
        RuleTag::LetRecStmt => RenderKind::Prefixed(ReservedWord::LetRec),
        RuleTag::LetInlineStmtCtx
        | RuleTag::LetInlineStmtNoctx => RenderKind::Prefixed(ReservedWord::LetInline),
        RuleTag::LetBlockStmtCtx
        | RuleTag::LetBlockStmtNoctx => RenderKind::Prefixed(ReservedWord::LetBlock),
        RuleTag::LetMathStmt => RenderKind::Prefixed(ReservedWord::LetMath),
        RuleTag::LetMutableStmt => RenderKind::Prefixed(ReservedWord::LetMutable),
        RuleTag::TypeStmt
        | RuleTag::SigTypeStmt => RenderKind::Prefixed(ReservedWord::Type),
        RuleTag::SigValStmt => RenderKind::Prefixed(ReservedWord::Val),
        RuleTag::SigDirectStmt => RenderKind::Prefixed(ReservedWord::Direct),
        RuleTag::Constraint => RenderKind::Prefixed(ReservedWord::Constraint),
        RuleTag::SigStmt => RenderKind::Container(ReservedWord::Sig),
        RuleTag::StructStmt => RenderKind::Container(ReservedWord::Struct),
        RuleTag::TypeInlineCmd => RenderKind::Bracketed(Bracket::TypedCommand(ReservedWord::InlineCommand)),
        RuleTag::TypeBlockCmd => RenderKind::Bracketed(Bracket::TypedCommand(ReservedWord::BlockCommand)),
        RuleTag::TypeMathCmd => RenderKind::Bracketed(Bracket::TypedCommand(ReservedWord::MathCommand)),
        RuleTag::BlockText => RenderKind::Bracketed(Bracket::BlockText),
        RuleTag::List => RenderKind::Bracketed(Bracket::List),
        RuleTag::Record => RenderKind::Bracketed(Bracket::Record),
        RuleTag::TypeRecord => RenderKind::Bracketed(Bracket::TypeRecord),
        RuleTag::CmdTextArg => RenderKind::Bracketed(Bracket::TextArgument),
        RuleTag::CmdExprArg => RenderKind::ExprArgument,
        RuleTag::InlineCmd
        | RuleTag::BlockCmd
        | RuleTag::Expr => RenderKind::Terminated,
        RuleTag::HorizontalBulletStar => RenderKind::BulletStar,
        RuleTag::Misc => RenderKind::Blank,
        RuleTag::RegularText => RenderKind::FreeText,
        RuleTag::ProgramSaty
        | RuleTag::ProgramSatyh
        | RuleTag::Preamble => RenderKind::Root,
        _ => RenderKind::Nothing,
    }
}

/// Finds the form that the rendering of a node of rule `rule` takes.
pub fn render_kind_of(rule: RuleTag) -> (kind: RenderKind)
    ensures
        kind == render_kind(rule),
{
    match rule {
        RuleTag::TypeName
        | RuleTag::HorizontalText
        | RuleTag::MathText
        | RuleTag::Tuple
        | RuleTag::BinOperator
        | RuleTag::UnaryOperator
        | RuleTag::UnaryPrefix
        | RuleTag::ExprWithMod
        | RuleTag::Var
        | RuleTag::VarPtn
        | RuleTag::Modvar
        | RuleTag::ModCmdName
        | RuleTag::ModuleName
        | RuleTag::VariantName
        | RuleTag::CmdNamePtn
        | RuleTag::CmdExprOption
        | RuleTag::InlineCmdName
        | RuleTag::BlockCmdName
        | RuleTag::MathCmd
        | RuleTag::MathCmdName
        | RuleTag::MathCmdExprArg
        | RuleTag::MathCmdExprOption
        | RuleTag::Pattern
        | RuleTag::MatchExpr
        | RuleTag::HorizontalEscapedChar
        | RuleTag::ConstUnit
        | RuleTag::ConstBool
        | RuleTag::ConstInt
        | RuleTag::ConstFloat
        | RuleTag::ConstLength
        | RuleTag::ConstString => RenderKind::Verbatim,
        RuleTag::LetRecInner
        | RuleTag::LetRecMatcharm
        | RuleTag::TypeInner
        | RuleTag::TypeVariant
        | RuleTag::ModuleStmt
        | RuleTag::OpenStmt
        | RuleTag::Arg
        | RuleTag::TypeExpr
        | RuleTag::TypeOptional
        | RuleTag::TypeProd
        | RuleTag::TypeListUnitOptional
        | RuleTag::TypeApplication
        | RuleTag::TypeRecordUnit
        | RuleTag::TypeParam
        | RuleTag::Unary
        | RuleTag::RecordUnit
        | RuleTag::PatAs
        | RuleTag::PatCons
        | RuleTag::PatVariant
        | RuleTag::PatList
        | RuleTag::PatTuple
        | RuleTag::MatchArm
        | RuleTag::MatchGuard
        | RuleTag::BindStmt
        | RuleTag::CtrlWhile
        | RuleTag::CtrlIf
        | RuleTag::Lambda
        | RuleTag::Assignment
        | RuleTag::DyadicExpr
        | RuleTag::UnaryOperatorExpr
        | RuleTag::Application
        | RuleTag::ApplicationArgsNormal
        | RuleTag::ApplicationArgsOptional
        | RuleTag::CommandApplication
        | RuleTag::VariantConstructor
        | RuleTag::HorizontalSingle
        | RuleTag::HorizontalList
        | RuleTag::HorizontalBulletList
        | RuleTag::HorizontalBullet
        | RuleTag::InlineTextEmbedding
        | RuleTag::Vertical
        | RuleTag::BlockTextEmbedding => RenderKind::Through,
        RuleTag::Pkgname => RenderKind::Trimmed,
        RuleTag::Comments => RenderKind::Comment,
        RuleTag::Stage => RenderKind::Stage,
        RuleTag::Headers => RenderKind::Headers,
        RuleTag::HeaderRequire => RenderKind::Require,
        RuleTag::HeaderImport => RenderKind::Import,
        RuleTag::LetStmt => RenderKind::Prefixed(ReservedWord::Let),
        RuleTag::LetRecStmt => RenderKind::Prefixed(ReservedWord::LetRec),
        RuleTag::LetInlineStmtCtx
        | RuleTag::LetInlineStmtNoctx => RenderKind::Prefixed(ReservedWord::LetInline),
        RuleTag::LetBlockStmtCtx
        | RuleTag::LetBlockStmtNoctx => RenderKind::Prefixed(ReservedWord::LetBlock),
        RuleTag::LetMathStmt => RenderKind::Prefixed(ReservedWord::LetMath),
        RuleTag::LetMutableStmt => RenderKind::Prefixed(ReservedWord::LetMutable),
        RuleTag::TypeStmt
        | RuleTag::SigTypeStmt => RenderKind::Prefixed(ReservedWord::Type),
        RuleTag::SigValStmt => RenderKind::Prefixed(ReservedWord::Val),
        RuleTag::SigDirectStmt => RenderKind::Prefixed(ReservedWord::Direct),
        RuleTag::Constraint => RenderKind::Prefixed(ReservedWord::Constraint),
        RuleTag::SigStmt => RenderKind::Container(ReservedWord::Sig),
        RuleTag::StructStmt => RenderKind::Container(ReservedWord::Struct),
        RuleTag::TypeInlineCmd => RenderKind::Bracketed(Bracket::TypedCommand(ReservedWord::InlineCommand)),
        RuleTag::TypeBlockCmd => RenderKind::Bracketed(Bracket::TypedCommand(ReservedWord::BlockCommand)),
        RuleTag::TypeMathCmd => RenderKind::Bracketed(Bracket::TypedCommand(ReservedWord::MathCommand)),
        RuleTag::BlockText => RenderKind::Bracketed(Bracket::BlockText),
        RuleTag::List => RenderKind::Bracketed(Bracket::List),
        RuleTag::Record => RenderKind::Bracketed(Bracket::Record),
        RuleTag::TypeRecord => RenderKind::Bracketed(Bracket::TypeRecord),
        RuleTag::CmdTextArg => RenderKind::Bracketed(Bracket::TextArgument),
        RuleTag::CmdExprArg => RenderKind::ExprArgument,
        RuleTag::InlineCmd
        | RuleTag::BlockCmd
        | RuleTag::Expr => RenderKind::Terminated,
        RuleTag::HorizontalBulletStar => RenderKind::BulletStar,
        RuleTag::Misc => RenderKind::Blank,
        RuleTag::RegularText => RenderKind::FreeText,
        RuleTag::ProgramSaty
        | RuleTag::ProgramSatyh
        | RuleTag::Preamble => RenderKind::Root,
        _ => RenderKind::Nothing,
    }
}

/// The content of a signature, of a structure and of each pair of delimiters
/// stands one level deeper than the node itself.
pub open spec fn opens_level(kind: RenderKind) -> bool {
    kind is Container || kind is Bracketed
}

/// The first character of `s` as a text; empty where `s` is.
pub open spec fn first_of(s: Seq<char>) -> Seq<char> {
    if s.len() > 0 {
        seq![s[0]]
    } else {
        Seq::empty()
    }
}

/// The last character of `s` as a text; empty where `s` is.
pub open spec fn last_of(s: Seq<char>) -> Seq<char> {
    if s.len() > 0 {
        seq![s.last()]
    } else {
        Seq::empty()
    }
}

/// The delimiter that opens a bracket. A text argument opens as its source
/// `own` does; block text with `'<`, or `<` where its source has no quote.
pub open spec fn opening(b: Bracket, own: Seq<char>) -> Seq<char> {
    match b {
        Bracket::TypedCommand(_) | Bracket::List => "["@,
        Bracket::Record | Bracket::TypeRecord => "(|"@,
        Bracket::BlockText => if "'"@.is_prefix_of(own) {
            "'<"@
        } else {
            "<"@
        },
        Bracket::TextArgument => first_of(own),
    }
}

/// The delimiter that closes a bracket. A text argument closes as its source
/// `own` does.
pub open spec fn closing(b: Bracket, own: Seq<char>) -> Seq<char> {
    match b {
        Bracket::TypedCommand(_) | Bracket::List => "]"@,
        Bracket::Record | Bracket::TypeRecord => "|)"@,
        Bracket::BlockText => ">"@,
        Bracket::TextArgument => last_of(own),
    }
}

/// The content of a bracket counts as empty when it holds nothing; that of a
/// text argument, when it holds nothing but white space.
pub open spec fn is_hollow(b: Bracket, content: Seq<char>) -> bool {
    if b is TextArgument {
        is_blank(content)
    } else {
        content.len() == 0
    }
}

/// A source that opens with the mark of a quoted block.
pub open spec fn opens_quote(own: Seq<char>) -> bool {
    "<"@.is_prefix_of(own) || "'<"@.is_prefix_of(own)
}

/// Content on the same line as its delimiters: one space on each side.
pub open spec fn one_line(b: Bracket, content: Seq<char>, own: Seq<char>) -> Seq<char> {
    opening(b, own) + " "@ + content + " "@ + closing(b, own)
}

/// Content goes on lines of its own when it already spans several lines,
/// when the source opens with the mark of a quoted block, when it is a text
/// argument that would take more than `row_length` bytes on one line with its
/// delimiters, or when it opens with a comment.
pub open spec fn is_stacked(b: Bracket, content: Seq<char>, own: Seq<char>, row_length: nat) -> bool {
    content.contains('\n') || opens_quote(own) || (b is TextArgument && utf8_len(
        one_line(b, content, own),
    ) > row_length) || "%"@.is_prefix_of(content)
}

/// What follows the last item of content that stands on lines of its own: a
/// semicolon in records, record types and typed command parameters, and in
/// lists unless the content ends with `}`.
pub open spec fn item_close(b: Bracket, content: Seq<char>) -> Seq<char> {
    match b {
        Bracket::List => if "}"@.is_suffix_of(content) {
            Seq::empty()
        } else {
            ";"@
        },
        Bracket::Record | Bracket::TypeRecord | Bracket::TypedCommand(_) => ";"@,
        _ => Seq::empty(),
    }
}

/// What follows the closing delimiter: for typed command parameters a space
/// and the word for the kind of command; for a list or record the semicolon
/// that closes its source, if one does.
pub open spec fn bracket_tail(b: Bracket, own: Seq<char>) -> Seq<char> {
    match b {
        Bracket::TypedCommand(word) => " "@ + spelling(word),
        Bracket::List | Bracket::Record => if ";"@.is_suffix_of(own) {
            ";"@
        } else {
            Seq::empty()
        },
        _ => Seq::empty(),
    }
}

/// Content between delimiters, for a node at `depth` whose content was
/// rendered one level deeper. Empty content leaves the bare pair. Content
/// that `is_stacked` stands on lines of its own, one level deeper than the
/// delimiters, with the closing delimiter back at `depth`. Other content
/// stands on the same line with one space on each side.
pub open spec fn bracketed(
    b: Bracket,
    content: Seq<char>,
    own: Seq<char>,
    width: nat,
    depth: nat,
    row_length: nat,
) -> Seq<char> {
    if is_hollow(b, content) {
        opening(b, own) + closing(b, own) + bracket_tail(b, own)
    } else if is_stacked(b, content, own, row_length) {
        opening(b, own) + newline_at(width, depth + 1) + content + item_close(b, content)
            + newline_at(width, depth) + closing(b, own) + bracket_tail(b, own)
    } else {
        one_line(b, content, own) + bracket_tail(b, own)
    }
}

/// The rendering of a node at `depth` from `content`, the text joined from
/// its children, and `own`, the source it covers.
pub open spec fn wrap(
    kind: RenderKind,
    content: Seq<char>,
    own: Seq<char>,
    width: nat,
    depth: nat,
    row_length: nat,
) -> Seq<char> {
    match kind {
        RenderKind::Verbatim => own,
        RenderKind::Trimmed => trim(own),
        RenderKind::Through => content,
        RenderKind::Comment => comment_line(own) + newline_at(width, depth),
        RenderKind::Stage => "@stage: "@ + trim(own) + "\n\n"@,
        RenderKind::Headers => if content.len() > 0 {
            content + "\n"@
        } else {
            content
        },
        RenderKind::Require => "@require: "@ + content + "\n"@,
        RenderKind::Import => "@import: "@ + content + "\n"@,
        RenderKind::Prefixed(word) => newline_at(width, depth) + spelling(word) + content,
        RenderKind::Container(word) => spelling(word) + content + newline_at(width, depth)
            + spelling(ReservedWord::End),
        RenderKind::Bracketed(b) => bracketed(b, content, own, width, depth, row_length),
        RenderKind::ExprArgument => if "("@.is_prefix_of(own) {
            "("@ + content + ")"@
        } else {
            content
        },
        RenderKind::Terminated => if ";"@.is_suffix_of(own) {
            content + ";"@
        } else {
            content
        },
        RenderKind::BulletStar => "* "@,
        RenderKind::Blank => " "@,
        RenderKind::FreeText => reflow(own, newline_at(width, depth)),
        RenderKind::Root => trim_start(content),
        RenderKind::Nothing => Seq::empty(),
    }
}

/// A form that reads the text joined from the children.
pub open spec fn reads_children(kind: RenderKind) -> bool {
    match kind {
        RenderKind::Verbatim
        | RenderKind::Trimmed
        | RenderKind::Comment
        | RenderKind::Stage
        | RenderKind::BulletStar
        | RenderKind::Blank
        | RenderKind::FreeText
        | RenderKind::Nothing => false,
        _ => true,
    }
}

/// A form that reads the node's own source.
pub open spec fn reads_source(kind: RenderKind) -> bool {
    match kind {
        RenderKind::Verbatim
        | RenderKind::Trimmed
        | RenderKind::Comment
        | RenderKind::Stage
        | RenderKind::Bracketed(_)
        | RenderKind::ExprArgument
        | RenderKind::Terminated
        | RenderKind::FreeText => true,
        _ => false,
    }
}

/// Only a form that reads the children depends on their text, and only a
/// form that reads the source depends on it.
pub proof fn lemma_wrap_reads(
    kind: RenderKind,
    content: Seq<char>,
    own: Seq<char>,
    width: nat,
    depth: nat,
    row_length: nat,
)
    ensures
        !reads_children(kind) ==> wrap(kind, content, own, width, depth, row_length) == wrap(
            kind,
            Seq::empty(),
            own,
            width,
            depth,
            row_length,
        ),
        !reads_source(kind) ==> wrap(kind, content, own, width, depth, row_length) == wrap(
            kind,
            content,
            Seq::empty(),
            width,
            depth,
            row_length,
        ),
{
}

/// Tells whether a form reads the text joined from the children.
pub fn needs_children(kind: RenderKind) -> (b: bool)
    ensures
        b == reads_children(kind),
{
    match kind {
        RenderKind::Verbatim
        | RenderKind::Trimmed
        | RenderKind::Comment
        | RenderKind::Stage
        | RenderKind::BulletStar
        | RenderKind::Blank
        | RenderKind::FreeText
        | RenderKind::Nothing => false,
        _ => true,
    }
}

/// Tells whether a form reads the node's own source.
pub fn needs_source(kind: RenderKind) -> (b: bool)
    ensures
        b == reads_source(kind),
{
    match kind {
        RenderKind::Verbatim
        | RenderKind::Trimmed
        | RenderKind::Comment
        | RenderKind::Stage
        | RenderKind::Bracketed(_)
        | RenderKind::ExprArgument
        | RenderKind::Terminated
        | RenderKind::FreeText => true,
        _ => false,
    }
}

/// Tells whether the content of a form stands one level deeper.
pub fn deepens(kind: RenderKind) -> (b: bool)
    ensures
        b == opens_level(kind),
{
    match kind {
        RenderKind::Container(_) | RenderKind::Bracketed(_) => true,
        _ => false,
    }
}

/// Appends the delimiter that opens a bracket.
fn push_opening(out: &mut Vec<char>, b: Bracket, own: &Vec<char>)
    ensures
        final(out)@ == old(out)@ + opening(b, own@),
{
    match b {
        Bracket::TypedCommand(_) | Bracket::List => append_str(out, "["),
        Bracket::Record | Bracket::TypeRecord => append_str(out, "(|"),
        Bracket::BlockText => if has_prefix(own, "'") {
            append_str(out, "'<")
        } else {
            append_str(out, "<")
        },
        Bracket::TextArgument => if own.len() > 0 {
            out.push(own[0]);
            assert(final(out)@ =~= old(out)@ + seq![own@[0]]);
        } else {
            assert(final(out)@ =~= old(out)@ + Seq::<char>::empty());
        },
    }
}

/// Appends the delimiter that closes a bracket, and what follows it.
fn push_closing(out: &mut Vec<char>, b: Bracket, own: &Vec<char>)
    ensures
        final(out)@ == old(out)@ + closing(b, own@) + bracket_tail(b, own@),
{
    match b {
        Bracket::TypedCommand(_) | Bracket::List => append_str(out, "]"),
        Bracket::Record | Bracket::TypeRecord => append_str(out, "|)"),
        Bracket::BlockText => append_str(out, ">"),
        Bracket::TextArgument => if own.len() > 0 {
            out.push(own[own.len() - 1]);
            assert(out@ =~= old(out)@ + seq![own@.last()]);
        } else {
            assert(out@ =~= old(out)@ + Seq::<char>::empty());
        },
    }
    let ghost closed = out@;
    match b {
        Bracket::TypedCommand(word) => {
            let mut tail: Vec<char> = Vec::new();
            append_str(&mut tail, " ");
            append_str(&mut tail, word.text());
            append(out, &tail);
        },
        Bracket::List | Bracket::Record => if has_suffix(own, ";") {
            append_str(out, ";");
        } else {
            assert(out@ =~= closed + Seq::<char>::empty());
        },
        _ => {
            assert(out@ =~= closed + Seq::<char>::empty());
        },
    }
}

/// Tells whether content goes on lines of its own.
fn stacked(b: Bracket, content: &Vec<char>, own: &Vec<char>, row_length: usize) -> (r: bool)
    ensures
        r == is_stacked(b, content@, own@, row_length as nat),
{
    if has_char(content, '\n') || has_prefix(own, "<") || has_prefix(own, "'<") {
        return true;
    }
    let long = match b {
        Bracket::TextArgument => {
            let mut line: Vec<char> = Vec::new();
            push_opening(&mut line, b, own);
            append_str(&mut line, " ");
            append(&mut line, content);
            append_str(&mut line, " ");
            push_closing(&mut line, b, own);
            assert(line@ =~= one_line(b, content@, own@));
            exceeds(&line, row_length)
        },
        _ => false,
    };
    long || has_prefix(content, "%")
}

/// Sets `content` between the delimiters of `b`. `newline` is the line break
/// at the node's depth, `inner_newline` the one a level deeper.
pub fn bracketed_of(
    b: Bracket,
    content: &Vec<char>,
    own: &Vec<char>,
    newline: &Vec<char>,
    inner_newline: &Vec<char>,
    row_length: usize,
    Ghost(width): Ghost<nat>,
    Ghost(depth): Ghost<nat>,
) -> (out: Vec<char>)
    requires
        newline@ == newline_at(width, depth),
        inner_newline@ == newline_at(width, depth + 1),
    ensures
        out@ == bracketed(b, content@, own@, width, depth, row_length as nat),
{
    let mut out: Vec<char> = Vec::new();
    push_opening(&mut out, b, own);
    assert(out@ =~= opening(b, own@));
    let hollow = match b {
        Bracket::TextArgument => blank(content),
        _ => content.len() == 0,
    };
    if hollow {
    } else if stacked(b, content, own, row_length) {
        append(&mut out, inner_newline);
        append(&mut out, content);
        match b {
            Bracket::List => if has_suffix(content, "}") {
                assert(out@ =~= out@ + Seq::<char>::empty());
            } else {
                append_str(&mut out, ";");
            },
            Bracket::Record | Bracket::TypeRecord | Bracket::TypedCommand(_) => {
                append_str(&mut out, ";");
            },
            _ => {
                assert(out@ =~= out@ + Seq::<char>::empty());
            },
        }
        append(&mut out, newline);
    } else {
        append_str(&mut out, " ");
        append(&mut out, content);
        append_str(&mut out, " ");
    }
    let ghost body = out@;
    push_closing(&mut out, b, own);
    assert(out@ =~= body + closing(b, own@) + bracket_tail(b, own@));
    out
}

/// The literal `head`, then `content`, then the literal `tail`.
fn framed(head: &str, content: &Vec<char>, tail: &str) -> (out: Vec<char>)
    ensures
        out@ == head@ + content@ + tail@,
{
    let mut out: Vec<char> = Vec::new();
    append_str(&mut out, head);
    assert(out@ =~= head@);
    append(&mut out, content);
    append_str(&mut out, tail);
    out
}

/// Renders a node at `depth` from `content`, the text joined from its
/// children, and `own`, the source it covers. `newline` is the line break at
/// `depth`, `inner_newline` the one a level deeper.
pub fn wrap_of(
    kind: RenderKind,
    content: Vec<char>,
    own: &Vec<char>,
    newline: &Vec<char>,
    inner_newline: &Vec<char>,
    row_length: usize,
    Ghost(width): Ghost<nat>,
    Ghost(depth): Ghost<nat>,
) -> (out: Vec<char>)
    requires
        newline@ == newline_at(width, depth),
        inner_newline@ == newline_at(width, depth + 1),
    ensures
        out@ == wrap(kind, content@, own@, width, depth, row_length as nat),
{
    match kind {
        RenderKind::Verbatim => {
            let mut out: Vec<char> = Vec::new();
            append(&mut out, own);
            assert(out@ =~= own@);
            out
        },
        RenderKind::Trimmed => trim_of(own),
        RenderKind::Through => content,
        RenderKind::Comment => {
            let mut out = comment_line_of(own);
            append(&mut out, newline);
            out
        },
        RenderKind::Stage => {
            let name = trim_of(own);
            framed("@stage: ", &name, "\n\n")
        },
        RenderKind::Headers => {
            let mut out = content;
            if out.len() > 0 {
                append_str(&mut out, "\n");
            }
            out
        },
        RenderKind::Require => framed("@require: ", &content, "\n"),
        RenderKind::Import => framed("@import: ", &content, "\n"),
        RenderKind::Prefixed(word) => {
            let mut out: Vec<char> = Vec::new();
            append(&mut out, newline);
            assert(out@ =~= newline@);
            append_str(&mut out, word.text());
            append(&mut out, &content);
            out
        },
        RenderKind::Container(word) => {
            let mut out: Vec<char> = Vec::new();
            append_str(&mut out, word.text());
            assert(out@ =~= spelling(word));
            append(&mut out, &content);
            append(&mut out, newline);
            append_str(&mut out, ReservedWord::End.text());
            out
        },
        RenderKind::Bracketed(b) => bracketed_of(
            b,
            &content,
            own,
            newline,
            inner_newline,
            row_length,
            Ghost(width),
            Ghost(depth),
        ),
        RenderKind::ExprArgument => if has_prefix(own, "(") {
            framed("(", &content, ")")
        } else {
            content
        },
        RenderKind::Terminated => {
            let mut out = content;
            if has_suffix(own, ";") {
                append_str(&mut out, ";");
            }
            out
        },
        RenderKind::BulletStar => {
            let mut out: Vec<char> = Vec::new();
            append_str(&mut out, "* ");
            assert(out@ =~= "* "@);
            out
        },
        RenderKind::Blank => {
            let mut out: Vec<char> = Vec::new();
            append_str(&mut out, " ");
            assert(out@ =~= " "@);
            out
        },
        RenderKind::FreeText => reflow_of(own, newline),
        RenderKind::Root => trim_start_of(&content),
        RenderKind::Nothing => Vec::new(),
    }
}

} // verus!
