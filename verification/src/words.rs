//! The reserved words of the language: a closed set of roles, each with its
//! spelling.
use vstd::prelude::*;

verus! {

/// The role that a reserved word plays.
#[derive(Clone, Copy, Debug, PartialEq, Eq, Structural)]
pub enum ReservedWord {
    LetBlock,
    LetMath,
    LetMutable,
    Type,
    LetInline,
    Constraint,
    InlineCommand,
    BlockCommand,
    MathCommand,
    LetRec,
    Controls,
    Command,
    Before,
    Module,
    Direct,
    Struct,
    Cycle,
    Match,
    While,
    If,
    Else,
    True,
    False,
    Open,
    Then,
    When,
    With,
    And,
    End,
    Fun,
    Let,
    Mod,
    Not,
    Sig,
    Val,
    As,
    Do,
    In,
    Of,
}

/// How the reserved word of a role is spelled.
pub open spec fn spelling(word: ReservedWord) -> Seq<char> {
    match word {
        ReservedWord::LetBlock => "let-block"@,
        ReservedWord::LetMath => "let-math"@,
        ReservedWord::LetMutable => "let-mutable"@,
        ReservedWord::Type => "type"@,
        ReservedWord::LetInline => "let-inline"@,
        ReservedWord::Constraint => "constraint"@,
        ReservedWord::InlineCommand => "inline-cmd"@,
        ReservedWord::BlockCommand => "block-cmd"@,
        ReservedWord::MathCommand => "math-cmd"@,
        ReservedWord::LetRec => "let-rec"@,
        ReservedWord::Controls => "controls"@,
        ReservedWord::Command => "command"@,
        ReservedWord::Before => "before"@,
        ReservedWord::Module => "module"@,
        ReservedWord::Direct => "direct"@,
        ReservedWord::Struct => "struct"@,
        ReservedWord::Cycle => "cycle"@,
        ReservedWord::Match => "match"@,
        ReservedWord::While => "while"@,
        ReservedWord::If => "if"@,
        ReservedWord::Else => "else"@,
        ReservedWord::True => "true"@,
        ReservedWord::False => "false"@,
        ReservedWord::Open => "open"@,
        ReservedWord::Then => "then"@,
        ReservedWord::When => "when"@,
        ReservedWord::With => "with"@,
        ReservedWord::And => "and"@,
        ReservedWord::End => "end"@,
        ReservedWord::Fun => "fun"@,
        ReservedWord::Let => "let"@,
        ReservedWord::Mod => "mod"@,
        ReservedWord::Not => "not"@,
        ReservedWord::Sig => "sig"@,
        ReservedWord::Val => "val"@,
        ReservedWord::As => "as"@,
        ReservedWord::Do => "do"@,
        ReservedWord::In => "in"@,
        ReservedWord::Of => "of"@,
    }
}

impl ReservedWord {
    /// The spelling of this reserved word.
    pub fn text(self) -> (s: &'static str)
        ensures
            s@ == spelling(self),
    {
        match self {
            ReservedWord::LetBlock => "let-block",
            ReservedWord::LetMath => "let-math",
            ReservedWord::LetMutable => "let-mutable",
            ReservedWord::Type => "type",
            ReservedWord::LetInline => "let-inline",
            ReservedWord::Constraint => "constraint",
            ReservedWord::InlineCommand => "inline-cmd",
            ReservedWord::BlockCommand => "block-cmd",
            ReservedWord::MathCommand => "math-cmd",
            ReservedWord::LetRec => "let-rec",
            ReservedWord::Controls => "controls",
            ReservedWord::Command => "command",
            ReservedWord::Before => "before",
            ReservedWord::Module => "module",
            ReservedWord::Direct => "direct",
            ReservedWord::Struct => "struct",
            ReservedWord::Cycle => "cycle",
            ReservedWord::Match => "match",
            ReservedWord::While => "while",
            ReservedWord::If => "if",
            ReservedWord::Else => "else",
            ReservedWord::True => "true",
            ReservedWord::False => "false",
            ReservedWord::Open => "open",
            ReservedWord::Then => "then",
            ReservedWord::When => "when",
            ReservedWord::With => "with",
            ReservedWord::And => "and",
            ReservedWord::End => "end",
            ReservedWord::Fun => "fun",
            ReservedWord::Let => "let",
            ReservedWord::Mod => "mod",
            ReservedWord::Not => "not",
            ReservedWord::Sig => "sig",
            ReservedWord::Val => "val",
            ReservedWord::As => "as",
            ReservedWord::Do => "do",
            ReservedWord::In => "in",
            ReservedWord::Of => "of",
        }
    }
}

} // verus!
