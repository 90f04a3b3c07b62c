use crate::loader::FileId;
use crate::span::Span;
use crate::tokenizer::DigitType;
use vstd::prelude::*;

verus! {

/// A path: one or more segments. A segment is a named piece with optional
/// generics, or a grouped import `(a, b, c)` of several paths.
#[derive(Debug)]
pub struct Path(pub Vec<PathNode>);

#[derive(Debug)]
pub enum PathNode {
    Singly { name: Span, generics: Generics },
    Multi(Vec<Path>),
}

#[derive(Debug)]
pub struct Generics(pub Vec<Generic>);

#[derive(Debug)]
pub struct Generic {
    pub name: Span,
    pub generictype: GenericType,
    pub traits: Traits,
}

#[derive(Debug)]
pub enum GenericType {
    Lifetime,
    Generic,
}

#[derive(Debug)]
pub struct Traits(pub Vec<Path>);

#[derive(Debug)]
pub struct FunctionDeclarationParameters(pub Vec<FunctionDeclarationParameter>);

impl FunctionDeclarationParameters {
    pub fn new() -> (r: FunctionDeclarationParameters)
        ensures
            r.0@ == Seq::<FunctionDeclarationParameter>::empty(),
    {
        let r = FunctionDeclarationParameters(Vec::new());
        proof {
            assert(r.0@ =~= Seq::<FunctionDeclarationParameter>::empty());
        }
        r
    }

    pub fn push(&mut self, val: FunctionDeclarationParameter)
        ensures
            final(self).0@ == old(self).0@.push(val),
    {
        self.0.push(val);
    }

    pub fn handle(&self) -> (r: &[FunctionDeclarationParameter])
        ensures
            r@ == self.0@,
    {
        self.0.as_slice()
    }
}

#[derive(Debug)]
pub struct FunctionDeclarationParameter {
    pub name: Span,
    pub arg_type: Path,
}

/// An expression of the language.
#[derive(Debug)]
pub enum Expression {
    NumberExpression { value: Span, digittype: DigitType },
    PathExpression { value: Path },
    TupleExpression { values: Vec<Expression> },
    ListExpression { values: Vec<Expression> },
    BinaryOpExpression { optype: BinaryOpType, lhs: Box<Expression>, rhs: Box<Expression> },
    TildeExpression { value: Box<Expression> },
    RequiredExpression { value: Box<Expression> },
    SwitchExpression { predicate: Box<Expression>, block: SwitchExpressionBlock },
}

#[derive(Debug)]
pub struct SwitchExpressionBlock(pub Vec<SwitchArm>);

#[derive(Debug)]
pub struct SwitchArm {
    pub lhs: Box<Expression>,
    pub rhs: Box<Expression>,
}

/// All binary operators bind alike and associate to the right.
#[derive(Debug, PartialEq, Eq, Structural, Clone, Copy, Hash)]
pub enum BinaryOpType {
    Add,
    Subtract,
    Multiply,
    Divide,
    Mod,
    AddEqual,
    SubtractEqual,
    MultiplyEqual,
    DivideEqual,
    ModEqual,
}

/// An operator on one operand; kept for tokens such as `~`.
#[derive(Debug, PartialEq, Eq, Structural, Clone, Copy, Hash)]
pub enum UnaryOpType {
    Add,
    Subtract,
    Multiply,
    Divide,
    Mod,
}

#[derive(Debug)]
pub enum VariableType {
    Const,
    Final,
}

/// A function or render block body.
#[derive(Debug)]
pub struct Block(pub Vec<FunctionBlockStatements>);

impl Block {
    pub fn push(&mut self, input: FunctionBlockStatements)
        ensures
            final(self).0@ == old(self).0@.push(input),
    {
        self.0.push(input);
    }
}

#[derive(Debug)]
pub enum FunctionBlockStatements {
    MutableVariableDeclaration {
        variablename: Span,
        variabletype: Option<Path>,
        declarationexpression: Option<Expression>,
    },
    ImmutableVariableDeclaration {
        variablename: Span,
        variabletype: Option<Path>,
        declarationexpression: Option<Expression>,
    },
    ExpressionStatement { hidden: bool, expression: Expression },
    ExportDeclaration { exporting: Exported, exporttype: Option<Path>, expression: Expression },
    RenderBlock { block: Block },
}

/// The target of an `export` statement: one of the two built-in channels or a
/// named export.
#[derive(Debug)]
pub enum Exported {
    ColorBuiltin,
    PositionBuiltin,
    Custom(Span),
}

#[derive(Debug)]
pub struct ComponentDeclarationBlock {
    pub contents: Vec<ComponentDeclarationBlockStatements>,
}

#[derive(Debug)]
pub enum ComponentDeclarationBlockStatements {
    FinalVariableDeclaration {
        variablename: Span,
        variabletype: Option<Path>,
        declarationexpression: Option<Expression>,
    },
    ConstVariableDeclaration,
    FunctionDeclaration { block: Block },
    RenderBlockDeclaration { block: RenderBlock },
    PublicConstructor { expression: Expression },
}

#[derive(Debug)]
pub struct RenderBlock {
    pub vertices_block: VerticesBlock,
    pub fragments_block: FragmentsBlock,
}

#[derive(Debug)]
pub struct VerticesBlock {
    pub block: Block,
}

#[derive(Debug)]
pub struct FragmentsBlock {
    pub block: Block,
}

/// The body of a `type` declaration.
#[derive(Debug)]
pub enum SubType {
    /// Field names each with their own body, in source order.
    Mapping(Vec<(Span, SubType)>),
    Name(Span),
    Named(Span, Box<SubType>),
    Union(Vec<SubType>),
    Empty,
}

/// A source attribute, `@language("...")` or `@inline`.
#[derive(Debug)]
pub enum Attribute {
    LanguageAttribute(Span),
    Inline,
}

/// One node of the syntactic tree.
#[derive(Debug)]
pub enum ASTNode {
    MainFunction {
        block: Block,
    },
    FunctionDeclaration {
        name: Span,
        generics: Generics,
        params: FunctionDeclarationParameters,
        block: Block,
        out_type: Option<Path>,
    },
    ViewportDeclaration {
        name: Span,
        params: FunctionDeclarationParameters,
        block: Block,
    },
    StaticVariableDeclaration,
    ComponentDeclaration {
        name: Span,
        block: ComponentDeclarationBlock,
    },
    UsingStatement {
        using: Path,
    },
    ModStatement {
        name: Span,
        tree: ASTTree,
    },
    TypeDeclaration {
        name: Span,
        generics: Generics,
        subtype: SubType,
    },
    TraitDeclaration {
        name: Span,
        generics: Generics,
        supertraits: Traits,
        tree: ASTTree,
    },
    ImplementBlock {
        generics: Generics,
        traitpath: Option<Path>,
        implementor: Path,
        block: ASTTree,
    },
    Public(Box<ASTNode>),
    Attributed(Vec<Attribute>, Box<ASTNode>),
    EOF,
}

/// A parsed syntactic tree with a cursor, tagged with the file its name spans
/// point into.
#[derive(Debug)]
pub struct ASTTree {
    pub stream: Vec<ASTNode>,
    pub pos: usize,
    pub id: FileId,
}

impl ASTTree {
    pub fn new(input: Vec<ASTNode>, id: FileId) -> (r: ASTTree)
        ensures
            r.stream@ == input@,
            r.pos == 0,
            r.id == id,
    {
        ASTTree { stream: input, pos: 0, id }
    }

    pub fn current_node(&self) -> (r: Option<&ASTNode>)
        ensures
            (if self.pos < self.stream@.len() {
                r matches Some(n) && *n == self.stream@[self.pos as int]
            } else {
                r is None
            }),
    {
        if self.pos < self.stream.len() {
            Some(&self.stream[self.pos])
        } else {
            None
        }
    }

    /// Hands out the node under the cursor and advances the cursor by one,
    /// unconditionally: past the end the cursor keeps growing and the result
    /// stays `None`.
    pub fn next_node(&mut self) -> (r: Option<&ASTNode>)
        requires
            old(self).pos < usize::MAX,
        ensures
            final(self).stream@ == old(self).stream@,
            final(self).id == old(self).id,
            final(self).pos == old(self).pos + 1,
            (if old(self).pos < old(self).stream@.len() {
                r matches Some(n) && *n == old(self).stream@[old(self).pos as int]
            } else {
                r is None
            }),
    {
        let i = self.pos;
        self.pos = self.pos + 1;
        if i < self.stream.len() {
            Some(&self.stream[i])
        } else {
            None
        }
    }

    pub fn peek(&self) -> (r: Option<&ASTNode>)
        ensures
            (if self.pos < self.stream@.len() {
                r matches Some(n) && *n == self.stream@[self.pos as int]
            } else {
                r is None
            }),
    {
        self.current_node()
    }

    pub fn reset(&mut self)
        ensures
            final(self).stream@ == old(self).stream@,
            final(self).id == old(self).id,
            final(self).pos == 0,
    {
        self.pos = 0;
    }
}


// ---------------------------------------------------------------------------
// Specification-level models of the tree: the same shapes, over `Seq`.
// The parser's contracts speak of these; `..._models` ties each executable
// value to its model.
// ---------------------------------------------------------------------------
broadcast use vstd::seq::axiom_seq_index_decreases;

pub type GPath = Seq<GPathNode>;

pub enum GPathNode {
    Singly { name: Span, generics: GGenerics },
    Multi(Seq<GPath>),
}

pub type GGenerics = Seq<GGeneric>;

pub struct GGeneric {
    pub name: Span,
    pub generictype: GenericType,
    pub traits: Seq<GPath>,
}

pub type GParams = Seq<GParam>;

pub struct GParam {
    pub name: Span,
    pub arg_type: GPath,
}

pub enum GExpression {
    Number { value: Span, digittype: DigitType },
    PathExpr(GPath),
    Tuple(Seq<GExpression>),
    List(Seq<GExpression>),
    BinaryOp { optype: BinaryOpType, lhs: Box<GExpression>, rhs: Box<GExpression> },
    Tilde(Box<GExpression>),
    Required(Box<GExpression>),
    Switch { predicate: Box<GExpression>, arms: Seq<GSwitchArm> },
}

pub struct GSwitchArm {
    pub lhs: Box<GExpression>,
    pub rhs: Box<GExpression>,
}

pub type GBlock = Seq<GStmt>;

pub enum GStmt {
    MutableVariableDeclaration {
        variablename: Span,
        variabletype: Option<GPath>,
        declarationexpression: Option<GExpression>,
    },
    ImmutableVariableDeclaration {
        variablename: Span,
        variabletype: Option<GPath>,
        declarationexpression: Option<GExpression>,
    },
    ExpressionStatement { hidden: bool, expression: GExpression },
    ExportDeclaration { exporting: Exported, exporttype: Option<GPath>, expression: GExpression },
    RenderBlock(GBlock),
}

pub enum GCompStmt {
    FinalVariableDeclaration {
        variablename: Span,
        variabletype: Option<GPath>,
        declarationexpression: Option<GExpression>,
    },
    RenderBlockDeclaration { vertices: GBlock, fragments: GBlock },
    PublicConstructor { expression: GExpression },
}

pub enum GSubType {
    Mapping(Seq<(Span, GSubType)>),
    Name(Span),
    Named(Span, Box<GSubType>),
    Union(Seq<GSubType>),
    Empty,
}

pub struct GTree {
    pub nodes: Seq<GNode>,
    pub id: FileId,
}

pub enum GNode {
    FunctionDeclaration {
        name: Span,
        generics: GGenerics,
        params: GParams,
        block: GBlock,
        out_type: Option<GPath>,
    },
    ViewportDeclaration { name: Span, params: GParams, block: GBlock },
    ComponentDeclaration { name: Span, block: Seq<GCompStmt> },
    UsingStatement { using: GPath },
    ModStatement { name: Span, tree: GTree },
    TypeDeclaration { name: Span, generics: GGenerics, subtype: GSubType },
    TraitDeclaration { name: Span, generics: GGenerics, supertraits: Seq<GPath>, tree: GTree },
    ImplementBlock { generics: GGenerics, traitpath: Option<GPath>, implementor: GPath, block: GTree },
    Public(Box<GNode>),
    Attributed(Seq<Attribute>, Box<GNode>),
    EOF,
}

pub open spec fn path_models(e: Path, g: GPath) -> bool
    decreases g,
{
    e.0@.len() == g.len() && (forall|i: int|
        0 <= i < g.len() ==> pathnode_models(e.0@[i], #[trigger] g[i]))
}

pub open spec fn pathnode_models(e: PathNode, g: GPathNode) -> bool
    decreases g,
{
    match g {
        GPathNode::Singly { name, generics } => e matches PathNode::Singly {
            name: en,
            generics: eg,
        } && en == name && generics_models(eg, generics),
        GPathNode::Multi(gps) => e matches PathNode::Multi(eps) && eps@.len() == gps.len() && (
        forall|i: int| 0 <= i < gps.len() ==> path_models(eps@[i], #[trigger] gps[i])),
    }
}

pub open spec fn generics_models(e: Generics, g: GGenerics) -> bool
    decreases g,
{
    e.0@.len() == g.len() && (forall|i: int|
        0 <= i < g.len() ==> generic_models(e.0@[i], #[trigger] g[i]))
}

pub open spec fn generic_models(e: Generic, g: GGeneric) -> bool
    decreases g,
{
    e.name == g.name && e.generictype == g.generictype && e.traits.0@.len() == g.traits.len() && (
    forall|i: int| 0 <= i < g.traits.len() ==> path_models(e.traits.0@[i], #[trigger] g.traits[i]))
}

pub open spec fn traits_models(e: Traits, g: Seq<GPath>) -> bool
    decreases g,
{
    e.0@.len() == g.len() && (forall|i: int|
        0 <= i < g.len() ==> path_models(e.0@[i], #[trigger] g[i]))
}

pub open spec fn params_models(e: FunctionDeclarationParameters, g: GParams) -> bool
    decreases g,
{
    e.0@.len() == g.len() && (forall|i: int|
        0 <= i < g.len() ==> {
            &&& e.0@[i].name == (#[trigger] g[i]).name
            &&& path_models(e.0@[i].arg_type, g[i].arg_type)
        })
}

pub open spec fn opt_path_models(e: Option<Path>, g: Option<GPath>) -> bool
    decreases g,
{
    match g {
        Some(gp) => e matches Some(ep) && path_models(ep, gp),
        None => e is None,
    }
}

pub open spec fn opt_expr_models(e: Option<Expression>, g: Option<GExpression>) -> bool
    decreases g,
{
    match g {
        Some(gp) => e matches Some(ep) && expr_models(ep, gp),
        None => e is None,
    }
}

pub open spec fn expr_models(e: Expression, g: GExpression) -> bool
    decreases g,
{
    match g {
        GExpression::Number { value, digittype } => e matches Expression::NumberExpression {
            value: ev,
            digittype: ed,
        } && ev == value && ed == digittype,
        GExpression::PathExpr(gp) => e matches Expression::PathExpression { value: ep }
            && path_models(ep, gp),
        GExpression::Tuple(gs) => e matches Expression::TupleExpression { values: es }
            && es@.len() == gs.len() && (forall|i: int|
            0 <= i < gs.len() ==> expr_models(es@[i], #[trigger] gs[i])),
        GExpression::List(gs) => e matches Expression::ListExpression { values: es } && es@.len()
            == gs.len() && (forall|i: int|
            0 <= i < gs.len() ==> expr_models(es@[i], #[trigger] gs[i])),
        GExpression::BinaryOp { optype, lhs, rhs } => e matches Expression::BinaryOpExpression {
            optype: eo,
            lhs: el,
            rhs: er,
        } && eo == optype && expr_models(*el, *lhs) && expr_models(*er, *rhs),
        GExpression::Tilde(gv) => e matches Expression::TildeExpression { value: ev }
            && expr_models(*ev, *gv),
        GExpression::Required(gv) => e matches Expression::RequiredExpression { value: ev }
            && expr_models(*ev, *gv),
        GExpression::Switch { predicate, arms } => e matches Expression::SwitchExpression {
            predicate: ep,
            block: eb,
        } && expr_models(*ep, *predicate) && eb.0@.len() == arms.len() && (forall|i: int|
            0 <= i < arms.len() ==> arm_models(eb.0@[i], #[trigger] arms[i])),
    }
}

pub open spec fn arm_models(e: SwitchArm, g: GSwitchArm) -> bool
    decreases g,
{
    expr_models(*e.lhs, *g.lhs) && expr_models(*e.rhs, *g.rhs)
}

pub open spec fn block_models(e: Block, g: GBlock) -> bool
    decreases g,
{
    e.0@.len() == g.len() && (forall|i: int|
        0 <= i < g.len() ==> stmt_models(e.0@[i], #[trigger] g[i]))
}

pub open spec fn stmt_models(e: FunctionBlockStatements, g: GStmt) -> bool
    decreases g,
{
    match g {
        GStmt::MutableVariableDeclaration { variablename, variabletype, declarationexpression } => e
            matches FunctionBlockStatements::MutableVariableDeclaration {
            variablename: en,
            variabletype: et,
            declarationexpression: ee,
        } && en == variablename && opt_path_models(et, variabletype) && opt_expr_models(
            ee,
            declarationexpression,
        ),
        GStmt::ImmutableVariableDeclaration {
            variablename,
            variabletype,
            declarationexpression,
        } => e matches FunctionBlockStatements::ImmutableVariableDeclaration {
            variablename: en,
            variabletype: et,
            declarationexpression: ee,
        } && en == variablename && opt_path_models(et, variabletype) && opt_expr_models(
            ee,
            declarationexpression,
        ),
        GStmt::ExpressionStatement { hidden, expression } => e
            matches FunctionBlockStatements::ExpressionStatement { hidden: eh, expression: ee }
            && eh == hidden && expr_models(ee, expression),
        GStmt::ExportDeclaration { exporting, exporttype, expression } => e
            matches FunctionBlockStatements::ExportDeclaration {
            exporting: ex,
            exporttype: et,
            expression: ee,
        } && ex == exporting && opt_path_models(et, exporttype) && expr_models(ee, expression),
        GStmt::RenderBlock(gb) => e matches FunctionBlockStatements::RenderBlock { block: eb }
            && block_models(eb, gb),
    }
}

pub open spec fn comp_stmt_models(e: ComponentDeclarationBlockStatements, g: GCompStmt) -> bool
    decreases g,
{
    match g {
        GCompStmt::FinalVariableDeclaration {
            variablename,
            variabletype,
            declarationexpression,
        } => e matches ComponentDeclarationBlockStatements::FinalVariableDeclaration {
            variablename: en,
            variabletype: et,
            declarationexpression: ee,
        } && en == variablename && opt_path_models(et, variabletype) && opt_expr_models(
            ee,
            declarationexpression,
        ),
        GCompStmt::RenderBlockDeclaration { vertices, fragments } => e
            matches ComponentDeclarationBlockStatements::RenderBlockDeclaration { block: eb }
            && block_models(eb.vertices_block.block, vertices) && block_models(
            eb.fragments_block.block,
            fragments,
        ),
        GCompStmt::PublicConstructor { expression } => e
            matches ComponentDeclarationBlockStatements::PublicConstructor { expression: ee }
            && expr_models(ee, expression),
    }
}

pub open spec fn subtype_models(e: SubType, g: GSubType) -> bool
    decreases g,
{
    match g {
        GSubType::Mapping(gfs) => e matches SubType::Mapping(efs) && efs@.len() == gfs.len() && (
        forall|i: int|
            0 <= i < gfs.len() ==> {
                &&& efs@[i].0 == (#[trigger] gfs[i]).0
                &&& subtype_models(efs@[i].1, gfs[i].1)
            }),
        GSubType::Name(sp) => e matches SubType::Name(en) && en == sp,
        GSubType::Named(sp, gb) => e matches SubType::Named(en, eb) && en == sp && subtype_models(
            *eb,
            *gb,
        ),
        GSubType::Union(gs) => e matches SubType::Union(es) && es@.len() == gs.len() && (forall|
            i: int,
        | 0 <= i < gs.len() ==> subtype_models(es@[i], #[trigger] gs[i])),
        GSubType::Empty => e is Empty,
    }
}

pub open spec fn tree_models(e: ASTTree, g: GTree) -> bool
    decreases g,
{
    e.stream@.len() == g.nodes.len() && e.id == g.id && (forall|i: int|
        0 <= i < g.nodes.len() ==> node_models(e.stream@[i], #[trigger] g.nodes[i]))
}

pub open spec fn node_models(e: ASTNode, g: GNode) -> bool
    decreases g,
{
    match g {
        GNode::FunctionDeclaration { name, generics, params, block, out_type } => e
            matches ASTNode::FunctionDeclaration {
            name: en,
            generics: eg,
            params: epr,
            block: eb,
            out_type: eo,
        } && en == name && generics_models(eg, generics) && params_models(epr, params)
            && block_models(eb, block) && opt_path_models(eo, out_type),
        GNode::ViewportDeclaration { name, params, block } => e
            matches ASTNode::ViewportDeclaration { name: en, params: epr, block: eb } && en == name
            && params_models(epr, params) && block_models(eb, block),
        GNode::ComponentDeclaration { name, block } => e matches ASTNode::ComponentDeclaration {
            name: en,
            block: eb,
        } && en == name && eb.contents@.len() == block.len() && (forall|i: int|
            0 <= i < block.len() ==> comp_stmt_models(eb.contents@[i], #[trigger] block[i])),
        GNode::UsingStatement { using } => e matches ASTNode::UsingStatement { using: eu }
            && path_models(eu, using),
        GNode::ModStatement { name, tree } => e matches ASTNode::ModStatement {
            name: en,
            tree: et,
        } && en == name && tree_models(et, tree),
        GNode::TypeDeclaration { name, generics, subtype } => e matches ASTNode::TypeDeclaration {
            name: en,
            generics: eg,
            subtype: es,
        } && en == name && generics_models(eg, generics) && subtype_models(es, subtype),
        GNode::TraitDeclaration { name, generics, supertraits, tree } => e
            matches ASTNode::TraitDeclaration {
            name: en,
            generics: eg,
            supertraits: est,
            tree: et,
        } && en == name && generics_models(eg, generics) && traits_models(est, supertraits)
            && tree_models(et, tree),
        GNode::ImplementBlock { generics, traitpath, implementor, block } => e
            matches ASTNode::ImplementBlock {
            generics: eg,
            traitpath: etp,
            implementor: eim,
            block: eb,
        } && generics_models(eg, generics) && opt_path_models(etp, traitpath) && path_models(
            eim,
            implementor,
        ) && tree_models(eb, block),
        GNode::Public(gb) => e matches ASTNode::Public(eb) && node_models(*eb, *gb),
        GNode::Attributed(gats, gb) => e matches ASTNode::Attributed(eats, eb) && eats@ == gats
            && node_models(*eb, *gb),
        GNode::EOF => e is EOF,
    }
}

pub open spec fn nodes_models(es: Seq<ASTNode>, gs: Seq<GNode>) -> bool {
    es.len() == gs.len() && (forall|i: int|
        0 <= i < gs.len() ==> node_models(es[i], #[trigger] gs[i]))
}

} // verus!
