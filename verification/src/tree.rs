//! The syntax tree that the formatter reads: grammar-rule tags, and nodes that
//! carry a tag, a span of the source and their children in source order.
use crate::source::{span_ok, SourceText, Span};
use vstd::prelude::*;

verus! {

/// The grammar rule that a node was parsed as. `Comments` tags a comment that
/// was attached to the tree after parsing.
#[derive(Clone, Copy, Debug, PartialEq, Eq, Hash, Structural)]
pub enum RuleTag {
    Misc,
    ProgramSaty,
    ProgramSatyh,
    Preamble,
    // headers
    Stage,
    Headers,
    HeaderRequire,
    HeaderImport,
    Pkgname,
    // statements
    LetStmt,
    LetRecStmt,
    LetRecInner,
    LetRecMatcharm,
    LetInlineStmtCtx,
    LetInlineStmtNoctx,
    LetBlockStmtCtx,
    LetBlockStmtNoctx,
    LetMathStmt,
    LetMutableStmt,
    TypeStmt,
    TypeInner,
    TypeVariant,
    ModuleStmt,
    OpenStmt,
    Arg,
    // modules
    SigStmt,
    StructStmt,
    SigTypeStmt,
    SigValStmt,
    SigDirectStmt,
    // type expressions
    TypeExpr,
    TypeOptional,
    TypeProd,
    TypeInlineCmd,
    TypeBlockCmd,
    TypeMathCmd,
    TypeListUnitOptional,
    TypeApplication,
    TypeName,
    TypeRecord,
    TypeRecordUnit,
    TypeParam,
    Constraint,
    // patterns
    PatAs,
    PatCons,
    Pattern,
    PatVariant,
    PatList,
    PatTuple,
    // expressions
    Expr,
    MatchExpr,
    MatchArm,
    MatchGuard,
    BindStmt,
    CtrlWhile,
    CtrlIf,
    Lambda,
    Assignment,
    DyadicExpr,
    UnaryOperatorExpr,
    UnaryOperator,
    Application,
    ApplicationArgsNormal,
    ApplicationArgsOptional,
    CommandApplication,
    VariantConstructor,
    // unary expressions
    Unary,
    UnaryPrefix,
    BlockText,
    HorizontalText,
    MathText,
    List,
    Record,
    RecordUnit,
    Tuple,
    BinOperator,
    ExprWithMod,
    Var,
    VarPtn,
    Modvar,
    ModCmdName,
    ModuleName,
    VariantName,
    // commands
    CmdNamePtn,
    CmdExprArg,
    CmdExprOption,
    CmdTextArg,
    InlineCmd,
    InlineCmdName,
    BlockCmd,
    BlockCmdName,
    MathCmd,
    MathCmdName,
    MathCmdExprArg,
    MathCmdExprOption,
    // inline text
    HorizontalSingle,
    HorizontalList,
    HorizontalBulletList,
    HorizontalBullet,
    HorizontalBulletStar,
    RegularText,
    HorizontalEscapedChar,
    InlineTextEmbedding,
    Vertical,
    BlockTextEmbedding,
    // constants
    ConstUnit,
    ConstBool,
    ConstInt,
    ConstFloat,
    ConstLength,
    ConstString,
    // mathematics
    MathSingle,
    MathList,
    MathToken,
    MathSup,
    MathSub,
    MathUnary,
    MathEmbedding,
    // incomplete input
    DummyHeader,
    DummySigStmt,
    DummyStmt,
    DummyInlineCmdIncomplete,
    DummyBlockCmdIncomplete,
    DummyModvarIncomplete,
    // attached after parsing
    Comments,
}

/// Number of rules in the grammar's rule list: the codes below it are the
/// ones that name a rule. `Comments` is not among them.
pub const PARSED_RULES: u8 = 124;

/// The rule tag that stands at position `code` of the grammar's rule list.
pub open spec fn rule_of_code(code: u8) -> Option<RuleTag> {
    match code {
        0u8 => Some(RuleTag::Misc),
        1u8 => Some(RuleTag::ProgramSaty),
        2u8 => Some(RuleTag::ProgramSatyh),
        3u8 => Some(RuleTag::Preamble),
        4u8 => Some(RuleTag::Stage),
        5u8 => Some(RuleTag::Headers),
        6u8 => Some(RuleTag::HeaderRequire),
        7u8 => Some(RuleTag::HeaderImport),
        8u8 => Some(RuleTag::Pkgname),
        9u8 => Some(RuleTag::LetStmt),
        10u8 => Some(RuleTag::LetRecStmt),
        11u8 => Some(RuleTag::LetRecInner),
        12u8 => Some(RuleTag::LetRecMatcharm),
        13u8 => Some(RuleTag::LetInlineStmtCtx),
        14u8 => Some(RuleTag::LetInlineStmtNoctx),
        15u8 => Some(RuleTag::LetBlockStmtCtx),
        16u8 => Some(RuleTag::LetBlockStmtNoctx),
        17u8 => Some(RuleTag::LetMathStmt),
        18u8 => Some(RuleTag::LetMutableStmt),
        19u8 => Some(RuleTag::TypeStmt),
        20u8 => Some(RuleTag::TypeInner),
        21u8 => Some(RuleTag::TypeVariant),
        22u8 => Some(RuleTag::ModuleStmt),
        23u8 => Some(RuleTag::OpenStmt),
        24u8 => Some(RuleTag::Arg),
        25u8 => Some(RuleTag::SigStmt),
        26u8 => Some(RuleTag::StructStmt),
        27u8 => Some(RuleTag::SigTypeStmt),
        28u8 => Some(RuleTag::SigValStmt),
        29u8 => Some(RuleTag::SigDirectStmt),
        30u8 => Some(RuleTag::TypeExpr),
        31u8 => Some(RuleTag::TypeOptional),
        32u8 => Some(RuleTag::TypeProd),
        33u8 => Some(RuleTag::TypeInlineCmd),
        34u8 => Some(RuleTag::TypeBlockCmd),
        35u8 => Some(RuleTag::TypeMathCmd),
        36u8 => Some(RuleTag::TypeListUnitOptional),
        37u8 => Some(RuleTag::TypeApplication),
        38u8 => Some(RuleTag::TypeName),
        39u8 => Some(RuleTag::TypeRecord),
        40u8 => Some(RuleTag::TypeRecordUnit),
        41u8 => Some(RuleTag::TypeParam),
        42u8 => Some(RuleTag::Constraint),
        43u8 => Some(RuleTag::PatAs),
        44u8 => Some(RuleTag::PatCons),
        45u8 => Some(RuleTag::Pattern),
        46u8 => Some(RuleTag::PatVariant),
        47u8 => Some(RuleTag::PatList),
        48u8 => Some(RuleTag::PatTuple),
        49u8 => Some(RuleTag::Expr),
        50u8 => Some(RuleTag::MatchExpr),
        51u8 => Some(RuleTag::MatchArm),
        52u8 => Some(RuleTag::MatchGuard),
        53u8 => Some(RuleTag::BindStmt),
        54u8 => Some(RuleTag::CtrlWhile),
        55u8 => Some(RuleTag::CtrlIf),
        56u8 => Some(RuleTag::Lambda),
        57u8 => Some(RuleTag::Assignment),
        58u8 => Some(RuleTag::DyadicExpr),
        59u8 => Some(RuleTag::UnaryOperatorExpr),
        60u8 => Some(RuleTag::UnaryOperator),
        61u8 => Some(RuleTag::Application),
        62u8 => Some(RuleTag::ApplicationArgsNormal),
        63u8 => Some(RuleTag::ApplicationArgsOptional),
        64u8 => Some(RuleTag::CommandApplication),
        65u8 => Some(RuleTag::VariantConstructor),
        66u8 => Some(RuleTag::Unary),
        67u8 => Some(RuleTag::UnaryPrefix),
        68u8 => Some(RuleTag::BlockText),
        69u8 => Some(RuleTag::HorizontalText),
        70u8 => Some(RuleTag::MathText),
        71u8 => Some(RuleTag::List),
        72u8 => Some(RuleTag::Record),
        73u8 => Some(RuleTag::RecordUnit),
        74u8 => Some(RuleTag::Tuple),
        75u8 => Some(RuleTag::BinOperator),
        76u8 => Some(RuleTag::ExprWithMod),
        77u8 => Some(RuleTag::Var),
        78u8 => Some(RuleTag::VarPtn),
        79u8 => Some(RuleTag::Modvar),
        80u8 => Some(RuleTag::ModCmdName),
        81u8 => Some(RuleTag::ModuleName),
        82u8 => Some(RuleTag::VariantName),
        83u8 => Some(RuleTag::CmdNamePtn),
        84u8 => Some(RuleTag::CmdExprArg),
        85u8 => Some(RuleTag::CmdExprOption),
        86u8 => Some(RuleTag::CmdTextArg),
        87u8 => Some(RuleTag::InlineCmd),
        88u8 => Some(RuleTag::InlineCmdName),
        89u8 => Some(RuleTag::BlockCmd),
        90u8 => Some(RuleTag::BlockCmdName),
        91u8 => Some(RuleTag::MathCmd),
        92u8 => Some(RuleTag::MathCmdName),
        93u8 => Some(RuleTag::MathCmdExprArg),
        94u8 => Some(RuleTag::MathCmdExprOption),
        95u8 => Some(RuleTag::HorizontalSingle),
        96u8 => Some(RuleTag::HorizontalList),
        97u8 => Some(RuleTag::HorizontalBulletList),
        98u8 => Some(RuleTag::HorizontalBullet),
        99u8 => Some(RuleTag::HorizontalBulletStar),
        100u8 => Some(RuleTag::RegularText),
        101u8 => Some(RuleTag::HorizontalEscapedChar),
        102u8 => Some(RuleTag::InlineTextEmbedding),
        103u8 => Some(RuleTag::Vertical),
        104u8 => Some(RuleTag::BlockTextEmbedding),
        105u8 => Some(RuleTag::ConstUnit),
        106u8 => Some(RuleTag::ConstBool),
        107u8 => Some(RuleTag::ConstInt),
        108u8 => Some(RuleTag::ConstFloat),
        109u8 => Some(RuleTag::ConstLength),
        110u8 => Some(RuleTag::ConstString),
        111u8 => Some(RuleTag::MathSingle),
        112u8 => Some(RuleTag::MathList),
        113u8 => Some(RuleTag::MathToken),
        114u8 => Some(RuleTag::MathSup),
        115u8 => Some(RuleTag::MathSub),
        116u8 => Some(RuleTag::MathUnary),
        117u8 => Some(RuleTag::MathEmbedding),
        118u8 => Some(RuleTag::DummyHeader),
        119u8 => Some(RuleTag::DummySigStmt),
        120u8 => Some(RuleTag::DummyStmt),
        121u8 => Some(RuleTag::DummyInlineCmdIncomplete),
        122u8 => Some(RuleTag::DummyBlockCmdIncomplete),
        123u8 => Some(RuleTag::DummyModvarIncomplete),
        _ => None,
    }
}

impl RuleTag {
    /// Finds the rule tag for a position of the grammar's rule list.
    pub fn from_code(code: u8) -> (tag: Option<RuleTag>)
        ensures
            tag == rule_of_code(code),
            tag is Some == (code < PARSED_RULES),
    {
        match code {
            0u8 => Some(RuleTag::Misc),
            1u8 => Some(RuleTag::ProgramSaty),
            2u8 => Some(RuleTag::ProgramSatyh),
            3u8 => Some(RuleTag::Preamble),
            4u8 => Some(RuleTag::Stage),
            5u8 => Some(RuleTag::Headers),
            6u8 => Some(RuleTag::HeaderRequire),
            7u8 => Some(RuleTag::HeaderImport),
            8u8 => Some(RuleTag::Pkgname),
            9u8 => Some(RuleTag::LetStmt),
            10u8 => Some(RuleTag::LetRecStmt),
            11u8 => Some(RuleTag::LetRecInner),
            12u8 => Some(RuleTag::LetRecMatcharm),
            13u8 => Some(RuleTag::LetInlineStmtCtx),
            14u8 => Some(RuleTag::LetInlineStmtNoctx),
            15u8 => Some(RuleTag::LetBlockStmtCtx),
            16u8 => Some(RuleTag::LetBlockStmtNoctx),
            17u8 => Some(RuleTag::LetMathStmt),
            18u8 => Some(RuleTag::LetMutableStmt),
            19u8 => Some(RuleTag::TypeStmt),
            20u8 => Some(RuleTag::TypeInner),
            21u8 => Some(RuleTag::TypeVariant),
            22u8 => Some(RuleTag::ModuleStmt),
            23u8 => Some(RuleTag::OpenStmt),
            24u8 => Some(RuleTag::Arg),
            25u8 => Some(RuleTag::SigStmt),
            26u8 => Some(RuleTag::StructStmt),
            27u8 => Some(RuleTag::SigTypeStmt),
            28u8 => Some(RuleTag::SigValStmt),
            29u8 => Some(RuleTag::SigDirectStmt),
            30u8 => Some(RuleTag::TypeExpr),
            31u8 => Some(RuleTag::TypeOptional),
            32u8 => Some(RuleTag::TypeProd),
            33u8 => Some(RuleTag::TypeInlineCmd),
            34u8 => Some(RuleTag::TypeBlockCmd),
            35u8 => Some(RuleTag::TypeMathCmd),
            36u8 => Some(RuleTag::TypeListUnitOptional),
            37u8 => Some(RuleTag::TypeApplication),
            38u8 => Some(RuleTag::TypeName),
            39u8 => Some(RuleTag::TypeRecord),
            40u8 => Some(RuleTag::TypeRecordUnit),
            41u8 => Some(RuleTag::TypeParam),
            42u8 => Some(RuleTag::Constraint),
            43u8 => Some(RuleTag::PatAs),
            44u8 => Some(RuleTag::PatCons),
            45u8 => Some(RuleTag::Pattern),
            46u8 => Some(RuleTag::PatVariant),
            47u8 => Some(RuleTag::PatList),
            48u8 => Some(RuleTag::PatTuple),
            49u8 => Some(RuleTag::Expr),
            50u8 => Some(RuleTag::MatchExpr),
            51u8 => Some(RuleTag::MatchArm),
            52u8 => Some(RuleTag::MatchGuard),
            53u8 => Some(RuleTag::BindStmt),
            54u8 => Some(RuleTag::CtrlWhile),
            55u8 => Some(RuleTag::CtrlIf),
            56u8 => Some(RuleTag::Lambda),
            57u8 => Some(RuleTag::Assignment),
            58u8 => Some(RuleTag::DyadicExpr),
            59u8 => Some(RuleTag::UnaryOperatorExpr),
            60u8 => Some(RuleTag::UnaryOperator),
            61u8 => Some(RuleTag::Application),
            62u8 => Some(RuleTag::ApplicationArgsNormal),
            63u8 => Some(RuleTag::ApplicationArgsOptional),
            64u8 => Some(RuleTag::CommandApplication),
            65u8 => Some(RuleTag::VariantConstructor),
            66u8 => Some(RuleTag::Unary),
            67u8 => Some(RuleTag::UnaryPrefix),
            68u8 => Some(RuleTag::BlockText),
            69u8 => Some(RuleTag::HorizontalText),
            70u8 => Some(RuleTag::MathText),
            71u8 => Some(RuleTag::List),
            72u8 => Some(RuleTag::Record),
            73u8 => Some(RuleTag::RecordUnit),
            74u8 => Some(RuleTag::Tuple),
            75u8 => Some(RuleTag::BinOperator),
            76u8 => Some(RuleTag::ExprWithMod),
            77u8 => Some(RuleTag::Var),
            78u8 => Some(RuleTag::VarPtn),
            79u8 => Some(RuleTag::Modvar),
            80u8 => Some(RuleTag::ModCmdName),
            81u8 => Some(RuleTag::ModuleName),
            82u8 => Some(RuleTag::VariantName),
            83u8 => Some(RuleTag::CmdNamePtn),
            84u8 => Some(RuleTag::CmdExprArg),
            85u8 => Some(RuleTag::CmdExprOption),
            86u8 => Some(RuleTag::CmdTextArg),
            87u8 => Some(RuleTag::InlineCmd),
            88u8 => Some(RuleTag::InlineCmdName),
            89u8 => Some(RuleTag::BlockCmd),
            90u8 => Some(RuleTag::BlockCmdName),
            91u8 => Some(RuleTag::MathCmd),
            92u8 => Some(RuleTag::MathCmdName),
            93u8 => Some(RuleTag::MathCmdExprArg),
            94u8 => Some(RuleTag::MathCmdExprOption),
            95u8 => Some(RuleTag::HorizontalSingle),
            96u8 => Some(RuleTag::HorizontalList),
            97u8 => Some(RuleTag::HorizontalBulletList),
            98u8 => Some(RuleTag::HorizontalBullet),
            99u8 => Some(RuleTag::HorizontalBulletStar),
            100u8 => Some(RuleTag::RegularText),
            101u8 => Some(RuleTag::HorizontalEscapedChar),
            102u8 => Some(RuleTag::InlineTextEmbedding),
            103u8 => Some(RuleTag::Vertical),
            104u8 => Some(RuleTag::BlockTextEmbedding),
            105u8 => Some(RuleTag::ConstUnit),
            106u8 => Some(RuleTag::ConstBool),
            107u8 => Some(RuleTag::ConstInt),
            108u8 => Some(RuleTag::ConstFloat),
            109u8 => Some(RuleTag::ConstLength),
            110u8 => Some(RuleTag::ConstString),
            111u8 => Some(RuleTag::MathSingle),
            112u8 => Some(RuleTag::MathList),
            113u8 => Some(RuleTag::MathToken),
            114u8 => Some(RuleTag::MathSup),
            115u8 => Some(RuleTag::MathSub),
            116u8 => Some(RuleTag::MathUnary),
            117u8 => Some(RuleTag::MathEmbedding),
            118u8 => Some(RuleTag::DummyHeader),
            119u8 => Some(RuleTag::DummySigStmt),
            120u8 => Some(RuleTag::DummyStmt),
            121u8 => Some(RuleTag::DummyInlineCmdIncomplete),
            122u8 => Some(RuleTag::DummyBlockCmdIncomplete),
            123u8 => Some(RuleTag::DummyModvarIncomplete),
            _ => None,
        }
    }
}

/// A syntax tree as a mathematical value: the rule a node was parsed as, the
/// span of the source it covers, and its children in source order.
pub struct SyntaxTree {
    pub rule: RuleTag,
    pub span: Span,
    pub children: Seq<SyntaxTree>,
}

/// A node of the syntax tree: the rule it was parsed as, the span of the
/// source it covers, and its children in source order.
#[derive(Debug, PartialEq, Eq)]
pub struct SyntaxNode {
    pub rule: RuleTag,
    pub span: Span,
    pub children: Vec<SyntaxNode>,
}

/// The trees that a sequence of nodes stands for.
pub open spec fn trees_of(nodes: Seq<SyntaxNode>) -> Seq<SyntaxTree>
    decreases nodes,
{
    Seq::new(
        nodes.len(),
        |i: int|
            if 0 <= i < nodes.len() {
                tree_of(nodes[i])
            } else {
                arbitrary()
            },
    )
}

/// The tree that a node stands for.
pub open spec fn tree_of(node: SyntaxNode) -> SyntaxTree
    decreases node,
{
    SyntaxTree { rule: node.rule, span: node.span, children: trees_of(node.children@) }
}

impl View for SyntaxNode {
    type V = SyntaxTree;

    open spec fn view(&self) -> SyntaxTree {
        tree_of(*self)
    }
}

/// Trees laid out one after another between the byte offsets `from` and
/// `to`: each is well formed and lies between the two, and each ends before
/// the next one starts.
pub open spec fn laid_out(trees: Seq<SyntaxTree>, text: Seq<char>, from: int, to: int) -> bool {
    &&& forall|i: int|
        0 <= i < trees.len() ==> {
            &&& from <= (#[trigger] trees[i]).span.start
            &&& trees[i].span.end <= to
            &&& well_formed(trees[i], text)
        }
    &&& forall|i: int, j: int|
        0 <= i < j < trees.len() ==> (#[trigger] trees[i]).span.end <= (#[trigger] trees[j]).span.start
}

/// A tree is well formed over `text` when every span addresses a piece of
/// `text`, the span of a child lies within the span of its parent, and
/// siblings follow one another in source order without overlap.
pub open spec fn well_formed(tree: SyntaxTree, text: Seq<char>) -> bool
    decreases tree,
{
    &&& span_ok(text, tree.span)
    &&& forall|i: int|
        0 <= i < tree.children.len() ==> {
            &&& tree.span.start <= (#[trigger] tree.children[i]).span.start
            &&& tree.children[i].span.end <= tree.span.end
            &&& well_formed(tree.children[i], text)
        }
    &&& forall|i: int, j: int|
        0 <= i < j < tree.children.len() ==> (#[trigger] tree.children[i]).span.end <= (
        #[trigger] tree.children[j]).span.start
}

/// Trees laid out up to `mid`, followed by trees laid out from `mid` on, are
/// laid out together.
pub proof fn lemma_laid_out_concat(
    a: Seq<SyntaxTree>,
    b: Seq<SyntaxTree>,
    text: Seq<char>,
    from: int,
    mid: int,
    to: int,
)
    requires
        laid_out(a, text, from, mid),
        laid_out(b, text, mid, to),
        from <= mid <= to,
    ensures
        laid_out(a + b, text, from, to),
{
    let c = a + b;
    assert forall|i: int| 0 <= i < c.len() implies {
        &&& from <= (#[trigger] c[i]).span.start
        &&& c[i].span.end <= to
        &&& well_formed(c[i], text)
    } by {
        if i < a.len() {
            assert(c[i] == a[i]);
        } else {
            assert(c[i] == b[i - a.len()]);
        }
    }
    assert forall|i: int, j: int| 0 <= i < j < c.len() implies (#[trigger] c[i]).span.end <= (
    #[trigger] c[j]).span.start by {
        if j < a.len() {
            assert(c[i] == a[i] && c[j] == a[j]);
        } else if i >= a.len() {
            assert(c[i] == b[i - a.len()] && c[j] == b[j - a.len()]);
        } else {
            assert(c[i] == a[i] && c[j] == b[j - a.len()]);
        }
    }
}

impl SyntaxNode {
    /// A node without children.
    pub fn leaf(rule: RuleTag, start: usize, end: usize) -> (node: SyntaxNode)
        ensures
            node@ == (SyntaxTree { rule, span: Span { start, end }, children: Seq::empty() }),
    {
        let node = SyntaxNode { rule, span: Span { start, end }, children: Vec::new() };
        assert(node@.children =~= Seq::empty());
        node
    }

    /// Tells whether the tree under this node is well formed over the source.
    pub fn check(&self, source: &SourceText) -> (ok: bool)
        ensures
            ok == well_formed(self@, source@),
        decreases self,
    {
        if source.char_range(self.span).is_none() {
            return false;
        }
        let mut floor: usize = self.span.start;
        let mut i: usize = 0;
        while i < self.children.len()
            invariant
                i <= self.children.len(),
                span_ok(source@, self.span),
                self.span.start <= floor,
                i == 0 ==> floor == self.span.start,
                i > 0 ==> floor == self@.children[i - 1].span.end,
                forall|a: int|
                    0 <= a < i ==> {
                        &&& self.span.start <= (#[trigger] self@.children[a]).span.start
                        &&& self@.children[a].span.end <= self.span.end
                        &&& self@.children[a].span.end <= floor
                        &&& well_formed(self@.children[a], source@)
                    },
                forall|a: int, b: int|
                    0 <= a < b < i ==> (#[trigger] self@.children[a]).span.end <= (
                    #[trigger] self@.children[b]).span.start,
            decreases self.children.len() - i,
        {
            let child = &self.children[i];
            assert(self@.children[i as int] == child@);
            assert(child@.span == child.span);
            if child.span.start < floor || child.span.end > self.span.end || !child.check(source) {
                proof {
                    let kids = self@.children;
                    if child.span.start < floor {
                        if i > 0 {
                            assert(kids[i - 1].span.end > kids[i as int].span.start);
                        } else {
                            assert(self@.span.start > kids[i as int].span.start);
                        }
                    } else if child.span.end > self.span.end {
                        assert(kids[i as int].span.end > self@.span.end);
                    } else {
                        assert(!well_formed(kids[i as int], source@));
                    }
                    assert(!well_formed(self@, source@));
                }
                return false;
            }
            proof {
                let kids = self@.children;
                assert forall|a: int, b: int| 0 <= a < b < i + 1 implies (#[trigger] kids[a]).span.end
                    <= (#[trigger] kids[b]).span.start by {
                    if b == i {
                        assert(kids[a].span.end <= floor);
                    }
                }
            }
            floor = child.span.end;
            i += 1;
        }
        true
    }

    /// A node with the given children.
    pub fn branch(rule: RuleTag, start: usize, end: usize, children: Vec<SyntaxNode>) -> (node:
        SyntaxNode)
        ensures
            node@ == (SyntaxTree { rule, span: Span { start, end }, children: trees_of(children@) }),
    {
        SyntaxNode { rule, span: Span { start, end }, children }
    }
}

} // verus!
