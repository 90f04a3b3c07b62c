use crate::ast::{
    ASTNode, ASTTree, Attribute, BinaryOpType, Block, ComponentDeclarationBlock,
    ComponentDeclarationBlockStatements, Exported, Expression, FragmentsBlock,
    FunctionBlockStatements, FunctionDeclarationParameter, FunctionDeclarationParameters, Generic,
    GenericType, Generics, Path, PathNode, RenderBlock, SubType, SwitchArm, SwitchExpressionBlock,
    Traits, VerticesBlock,
};
use crate::ast::{
    GBlock, GCompStmt, GExpression, GGeneric, GGenerics, GNode, GParam, GParams, GPath, GPathNode,
    GStmt, GSubType, GSwitchArm, GTree, arm_models, block_models, comp_stmt_models, expr_models,
    generic_models, generics_models, node_models, nodes_models, opt_expr_models, opt_path_models,
    params_models, path_models, pathnode_models, stmt_models, subtype_models, traits_models,
    tree_models,
};
use crate::loader::{FileId, FileLoader, FileStatus, SourceTree, s_lookup};
use crate::span::Span;
use crate::tokenizer::{LexError, Token};
use crate::RecursiveGuard;
use crate::s_guard_contains;
use vstd::prelude::*;

verus! {

/// What the parser was looking for when it stopped.
#[derive(Debug, PartialEq, Eq, Structural, Clone, Copy)]
pub enum Expected {
    AToken(Token),
    Ident,
    StringLit,
    TopLevel,
    Statement,
    ComponentStatement,
    ExpressionStart,
    Subtype,
    AttributeName,
    ExportName,
    PathOrGroup,
    GenericParam,
    TraitBound,
    NameSpan,
}

/// A parsing failure. Positions are indices into the token stream of the
/// named file.
#[derive(Debug)]
pub enum ParseError {
    UnexpectedToken { at: usize, file: FileId, expected: Expected },
    UnexpectedEof { file: FileId, expected: Expected },
    /// A module file failed to lex.
    Lex { file: FileId, err: LexError },
    /// Neither candidate file of a `module` statement exists.
    MissingModule { candidate_a: Vec<u8>, candidate_b: Vec<u8> },
    /// Both candidate files of a `module` statement exist.
    AmbiguousModule { candidate_a: Vec<u8>, candidate_b: Vec<u8> },
    /// A candidate file is already being parsed on this recursion frame.
    ModuleCycle { candidate_a: Vec<u8>, candidate_b: Vec<u8> },
    /// Nothing is recorded about this path yet: the caller must consult the
    /// file system and record the outcome before parsing can go on.
    NeedFile { path: Vec<u8> },
}

/// The specification-level picture of a parsing failure: the same cases,
/// with paths as byte sequences.
pub enum GParseError {
    UnexpectedToken { at: usize, file: FileId, expected: Expected },
    UnexpectedEof { file: FileId, expected: Expected },
    Lex { file: FileId, err: LexError },
    MissingModule { candidate_a: Seq<u8>, candidate_b: Seq<u8> },
    AmbiguousModule { candidate_a: Seq<u8>, candidate_b: Seq<u8> },
    ModuleCycle { candidate_a: Seq<u8>, candidate_b: Seq<u8> },
    NeedFile { path: Seq<u8> },
}

pub open spec fn perr_models(e: ParseError, g: GParseError) -> bool {
    match g {
        GParseError::UnexpectedToken { at, file, expected } => e
            matches ParseError::UnexpectedToken { at: a, file: f, expected: x } && a == at && f
            == file && x == expected,
        GParseError::UnexpectedEof { file, expected } => e matches ParseError::UnexpectedEof {
            file: f,
            expected: x,
        } && f == file && x == expected,
        GParseError::Lex { file, err } => e matches ParseError::Lex { file: f, err: x } && f
            == file && x == err,
        GParseError::MissingModule { candidate_a, candidate_b } => e
            matches ParseError::MissingModule { candidate_a: a, candidate_b: b } && a@
            == candidate_a && b@ == candidate_b,
        GParseError::AmbiguousModule { candidate_a, candidate_b } => e
            matches ParseError::AmbiguousModule { candidate_a: a, candidate_b: b } && a@
            == candidate_a && b@ == candidate_b,
        GParseError::ModuleCycle { candidate_a, candidate_b } => e
            matches ParseError::ModuleCycle { candidate_a: a, candidate_b: b } && a@
            == candidate_a && b@ == candidate_b,
        GParseError::NeedFile { path } => e matches ParseError::NeedFile { path: p } && p@ == path,
    }
}

/// An exec parse outcome agrees with a specification-level one, value for
/// value.
pub open spec fn res_eq<T>(r: Result<(T, usize), ParseError>, s: Result<(T, int), GParseError>) -> bool {
    match (r, s) {
        (Ok((v, p)), Ok((w, q))) => v == w && p as int == q,
        (Err(a), Err(b)) => perr_models(a, b),
        _ => false,
    }
}

/// An exec parse outcome agrees with a specification-level one, the values
/// related by the given model relation.
pub open spec fn res_m<T, G>(
    r: Result<(T, usize), ParseError>,
    s: Result<(G, int), GParseError>,
    m: spec_fn(T, G) -> bool,
) -> bool {
    match (r, s) {
        (Ok((v, p)), Ok((w, q))) => m(v, w) && p as int == q,
        (Err(a), Err(b)) => perr_models(a, b),
        _ => false,
    }
}

/// On success the cursor moved forward and stayed inside the stream.
pub open spec fn moved<T>(r: Result<(T, usize), ParseError>, pos: int, len: int) -> bool {
    match r {
        Ok(v) => pos < v.1 as int <= len,
        Err(_) => true,
    }
}

/// On success the cursor did not move backwards and stayed inside the stream.
pub open spec fn stays<T>(r: Result<(T, usize), ParseError>, pos: int, len: int) -> bool {
    match r {
        Ok(v) => pos <= v.1 as int <= len,
        Err(_) => true,
    }
}

/// Failure outcome for spec positions that a parsing step can never hand
/// back; it keeps the specification-level recursion well-founded.
pub open spec fn g_stuck(fid: FileId) -> GParseError {
    GParseError::UnexpectedEof { file: fid, expected: Expected::TopLevel }
}

/// First position at or after `pos` that does not hold a whitespace token.
pub open spec fn s_skip_ws(toks: Seq<Token>, pos: int) -> int
    decreases toks.len() - pos,
{
    if 0 <= pos < toks.len() && toks[pos] == Token::Whitespace {
        s_skip_ws(toks, pos + 1)
    } else {
        pos
    }
}

/// Discards whitespace tokens between significant tokens.
pub fn skip_ws(toks: &Vec<Token>, pos: usize) -> (r: usize)
    requires
        pos <= toks.len(),
    ensures
        r as int == s_skip_ws(toks@, pos as int),
        pos <= r <= toks.len(),
{
    let mut i = pos;
    while i < toks.len() && matches!(toks[i], Token::Whitespace)
        invariant
            pos <= i <= toks.len(),
            s_skip_ws(toks@, pos as int) == s_skip_ws(toks@, i as int),
        decreases toks.len() - i,
    {
        i = i + 1;
    }
    i
}

pub open spec fn s_must(toks: Seq<Token>, pos: int, fid: FileId, val: Token) -> Result<
    ((), int),
    GParseError,
> {
    let p = s_skip_ws(toks, pos);
    if 0 <= p < toks.len() {
        if toks[p] == val {
            Ok(((), p + 1))
        } else {
            Err(GParseError::UnexpectedToken { at: p as usize, file: fid, expected: Expected::AToken(val) })
        }
    } else {
        Err(GParseError::UnexpectedEof { file: fid, expected: Expected::AToken(val) })
    }
}

/// Demands one exact token, after any whitespace.
pub fn must(toks: &Vec<Token>, pos: usize, fid: FileId, val: Token) -> (r: Result<
    ((), usize),
    ParseError,
>)
    requires
        pos <= toks.len(),
    ensures
        res_eq(r, s_must(toks@, pos as int, fid, val)),
        moved(r, pos as int, toks@.len() as int),
{
    let p = skip_ws(toks, pos);
    if p < toks.len() {
        if toks[p] == val {
            Ok(((), p + 1))
        } else {
            Err(ParseError::UnexpectedToken { at: p, file: fid, expected: Expected::AToken(val) })
        }
    } else {
        Err(ParseError::UnexpectedEof { file: fid, expected: Expected::AToken(val) })
    }
}

pub open spec fn s_must_ident(toks: Seq<Token>, pos: int, fid: FileId) -> Result<
    (Span, int),
    GParseError,
> {
    let p = s_skip_ws(toks, pos);
    if 0 <= p < toks.len() {
        match toks[p] {
            Token::Ident(sp) => Ok((sp, p + 1)),
            _ => Err(GParseError::UnexpectedToken { at: p as usize, file: fid, expected: Expected::Ident }),
        }
    } else {
        Err(GParseError::UnexpectedEof { file: fid, expected: Expected::Ident })
    }
}

/// Demands an identifier, after any whitespace, and hands back its span.
pub fn must_ident(toks: &Vec<Token>, pos: usize, fid: FileId) -> (r: Result<(Span, usize), ParseError>)
    requires
        pos <= toks.len(),
    ensures
        res_eq(r, s_must_ident(toks@, pos as int, fid)),
        moved(r, pos as int, toks@.len() as int),
{
    let p = skip_ws(toks, pos);
    if p < toks.len() {
        match toks[p] {
            Token::Ident(sp) => Ok((sp, p + 1)),
            _ => Err(ParseError::UnexpectedToken { at: p, file: fid, expected: Expected::Ident }),
        }
    } else {
        Err(ParseError::UnexpectedEof { file: fid, expected: Expected::Ident })
    }
}

pub open spec fn s_must_string(toks: Seq<Token>, pos: int, fid: FileId) -> Result<
    (Span, int),
    GParseError,
> {
    let p = s_skip_ws(toks, pos);
    if 0 <= p < toks.len() {
        match toks[p] {
            Token::String(sp) => Ok((sp, p + 1)),
            _ => Err(GParseError::UnexpectedToken { at: p as usize, file: fid, expected: Expected::StringLit }),
        }
    } else {
        Err(GParseError::UnexpectedEof { file: fid, expected: Expected::StringLit })
    }
}

/// Demands a string literal, after any whitespace.
pub fn must_string(toks: &Vec<Token>, pos: usize, fid: FileId) -> (r: Result<
    (Span, usize),
    ParseError,
>)
    requires
        pos <= toks.len(),
    ensures
        res_eq(r, s_must_string(toks@, pos as int, fid)),
        moved(r, pos as int, toks@.len() as int),
{
    let p = skip_ws(toks, pos);
    if p < toks.len() {
        match toks[p] {
            Token::String(sp) => Ok((sp, p + 1)),
            _ => Err(ParseError::UnexpectedToken { at: p, file: fid, expected: Expected::StringLit }),
        }
    } else {
        Err(ParseError::UnexpectedEof { file: fid, expected: Expected::StringLit })
    }
}

pub open spec fn s_consume_a_semicolon(toks: Seq<Token>, pos: int, fid: FileId) -> Result<
    ((), int),
    GParseError,
> {
    s_must(toks, pos, fid, Token::Semicolon)
}

/// Demands the `;` that closes a statement.
pub fn consume_a_semicolon(toks: &Vec<Token>, pos: usize, fid: FileId) -> (r: Result<
    ((), usize),
    ParseError,
>)
    requires
        pos <= toks.len(),
    ensures
        res_eq(r, s_consume_a_semicolon(toks@, pos as int, fid)),
        moved(r, pos as int, toks@.len() as int),
{
    must(toks, pos, fid, Token::Semicolon)
}



/// Positions a well-behaved step hands back: never backwards, never outside.
pub open spec fn within(lo: int, p: int, len: int) -> bool {
    lo <= p <= len
}

// ---------------------------------------------------------------------------
// Paths, generics and trait bounds.
// The path delimiter of this front end is `/`, as in `using std/graphics/color;`.
// A slash after a path segment therefore always extends the path; dividing two
// named values asks for parentheses around them.
// ---------------------------------------------------------------------------

/// Segments of a path: `name[generics]` pieces joined by `/`, or `( ... )`
/// groups; an empty segment list is an empty path.
pub open spec fn s_consume_a_path(toks: Seq<Token>, pos: int, fid: FileId) -> Result<
    (GPath, int),
    GParseError,
>
    decreases toks.len() - pos, 3int,
{
    if 0 <= pos < toks.len() && toks[pos] matches Token::Ident(_) {
        let name = toks[pos]->Ident_0;
        match s_consume_generics(toks, pos + 1, fid) {
            Err(e) => Err(e),
            Ok((g, p2)) => {
                if !within(pos + 1, p2, toks.len() as int) {
                    Err(g_stuck(fid))
                } else {
                    let node = GPathNode::Singly { name, generics: g };
                    if p2 < toks.len() && toks[p2] == Token::Slash {
                        match s_consume_a_path(toks, p2 + 1, fid) {
                            Err(e) => Err(e),
                            Ok((rest, p3)) => Ok((seq![node] + rest, p3)),
                        }
                    } else {
                        Ok((seq![node], p2))
                    }
                }
            },
        }
    } else if 0 <= pos < toks.len() && toks[pos] == Token::LeftParenthesis {
        match s_multi_paths(toks, pos + 1, fid) {
            Err(e) => Err(e),
            Ok((vals, p2)) => {
                if !within(pos + 1, p2, toks.len() as int) {
                    Err(g_stuck(fid))
                } else {
                    match s_must(toks, p2, fid, Token::RightParenthesis) {
                        Err(e) => Err(e),
                        Ok((_, p3)) => {
                            if !within(p2, p3, toks.len() as int) {
                                Err(g_stuck(fid))
                            } else {
                                match s_consume_a_path(toks, p3, fid) {
                                    Err(e) => Err(e),
                                    Ok((rest, p4)) => Ok((seq![GPathNode::Multi(vals)] + rest, p4)),
                                }
                            }
                        },
                    }
                }
            },
        }
    } else {
        Ok((Seq::empty(), pos))
    }
}

/// The grouped paths of a `Multi` segment, separated by commas.
pub open spec fn s_multi_paths(toks: Seq<Token>, pos: int, fid: FileId) -> Result<
    (Seq<GPath>, int),
    GParseError,
>
    decreases toks.len() - pos, 4int,
{
    let p = s_skip_ws(toks, pos);
    if !within(pos, p, toks.len() as int) {
        Err(g_stuck(fid))
    } else {
        match s_consume_a_path(toks, p, fid) {
            Err(e) => Err(e),
            Ok((path, p2)) => {
                if !within(p, p2, toks.len() as int) {
                    Err(g_stuck(fid))
                } else {
                    let p3 = s_skip_ws(toks, p2);
                    if !within(p2, p3, toks.len() as int) {
                        Err(g_stuck(fid))
                    } else if p3 < toks.len() && toks[p3] == Token::Comma {
                        match s_multi_paths(toks, p3 + 1, fid) {
                            Err(e) => Err(e),
                            Ok((rest, p4)) => Ok((seq![path] + rest, p4)),
                        }
                    } else {
                        Ok((seq![path], p3))
                    }
                }
            },
        }
    }
}

/// `[ <param> (, <param>)* ]`, or nothing at all.
pub open spec fn s_consume_generics(toks: Seq<Token>, pos: int, fid: FileId) -> Result<
    (GGenerics, int),
    GParseError,
>
    decreases toks.len() - pos, 7int,
{
    let p = s_skip_ws(toks, pos);
    if !within(pos, p, toks.len() as int) {
        Err(g_stuck(fid))
    } else if p < toks.len() && toks[p] == Token::LeftSquare {
        s_generic_params(toks, p + 1, fid)
    } else {
        Ok((Seq::empty(), p))
    }
}

/// The parameters inside `[ ... ]`: `#name` lifetimes or `name` types, each
/// with optional `: bound (+ bound)*`.
pub open spec fn s_generic_params(toks: Seq<Token>, pos: int, fid: FileId) -> Result<
    (GGenerics, int),
    GParseError,
>
    decreases toks.len() - pos, 6int,
{
    let p = s_skip_ws(toks, pos);
    if !within(pos, p, toks.len() as int) {
        Err(g_stuck(fid))
    } else if p < toks.len() {
        match toks[p] {
            Token::Hash => {
                match s_must_ident(toks, p + 1, fid) {
                    Err(e) => Err(e),
                    Ok((name, p2)) => {
                        if !within(p + 1, p2, toks.len() as int) {
                            Err(g_stuck(fid))
                        } else {
                            s_generic_tail(toks, p2, fid, name, GenericType::Lifetime)
                        }
                    },
                }
            },
            Token::Ident(name) => s_generic_tail(toks, p + 1, fid, name, GenericType::Generic),
            Token::RightSquare => Ok((Seq::empty(), p + 1)),
            Token::RightCurly => Ok((Seq::empty(), p + 1)),
            _ => Err(GParseError::UnexpectedToken { at: p as usize, file: fid, expected: Expected::GenericParam }),
        }
    } else {
        Err(GParseError::UnexpectedEof { file: fid, expected: Expected::GenericParam })
    }
}

/// What follows a generic parameter's name: bounds, a comma, or the closing
/// bracket; the name itself sits just before `pos`.
pub open spec fn s_generic_tail(
    toks: Seq<Token>,
    pos: int,
    fid: FileId,
    name: Span,
    gt: GenericType,
) -> Result<(GGenerics, int), GParseError>
    decreases toks.len() - pos, 6int,
{
    let p = s_skip_ws(toks, pos);
    if !within(pos, p, toks.len() as int) {
        Err(g_stuck(fid))
    } else if p < toks.len() {
        match toks[p] {
            Token::Colon => {
                match s_consume_traits(toks, p + 1, fid) {
                    Err(e) => Err(e),
                    Ok((tr, p2)) => {
                        if !within(p + 1, p2, toks.len() as int) {
                            Err(g_stuck(fid))
                        } else {
                            let g = GGeneric { name, generictype: gt, traits: tr };
                            let p3 = s_skip_ws(toks, p2);
                            if !within(p2, p3, toks.len() as int) {
                                Err(g_stuck(fid))
                            } else if p3 < toks.len() && toks[p3] == Token::Comma {
                                match s_generic_params(toks, p3 + 1, fid) {
                                    Err(e) => Err(e),
                                    Ok((rest, p4)) => Ok((seq![g] + rest, p4)),
                                }
                            } else {
                                match s_generic_params(toks, p3, fid) {
                                    Err(e) => Err(e),
                                    Ok((rest, p4)) => Ok((seq![g] + rest, p4)),
                                }
                            }
                        }
                    },
                }
            },
            Token::Comma => {
                let g = GGeneric { name, generictype: gt, traits: Seq::empty() };
                match s_generic_params(toks, p + 1, fid) {
                    Err(e) => Err(e),
                    Ok((rest, p4)) => Ok((seq![g] + rest, p4)),
                }
            },
            Token::RightSquare => {
                let g = GGeneric { name, generictype: gt, traits: Seq::empty() };
                Ok((seq![g], p + 1))
            },
            _ => Err(GParseError::UnexpectedToken { at: p as usize, file: fid, expected: Expected::GenericParam }),
        }
    } else {
        Err(GParseError::UnexpectedEof { file: fid, expected: Expected::GenericParam })
    }
}

/// Trait bounds: paths joined by `+`; a comma, closing bracket or opening
/// brace ends an empty list.
pub open spec fn s_consume_traits(toks: Seq<Token>, pos: int, fid: FileId) -> Result<
    (Seq<GPath>, int),
    GParseError,
>
    decreases toks.len() - pos, 5int,
{
    let p = s_skip_ws(toks, pos);
    if !within(pos, p, toks.len() as int) {
        Err(g_stuck(fid))
    } else if p < toks.len() {
        match toks[p] {
            Token::Ident(_) => {
                match s_consume_a_path(toks, p, fid) {
                    Err(e) => Err(e),
                    Ok((path, p2)) => {
                        if !(p < p2 <= toks.len()) {
                            Err(g_stuck(fid))
                        } else {
                            let p3 = s_skip_ws(toks, p2);
                            if !within(p2, p3, toks.len() as int) {
                                Err(g_stuck(fid))
                            } else if p3 < toks.len() && toks[p3] == Token::Plus {
                                match s_consume_traits(toks, p3 + 1, fid) {
                                    Err(e) => Err(e),
                                    Ok((rest, p4)) => Ok((seq![path] + rest, p4)),
                                }
                            } else {
                                Ok((seq![path], p3))
                            }
                        }
                    },
                }
            },
            Token::Comma => Ok((Seq::empty(), p)),
            Token::RightSquare => Ok((Seq::empty(), p)),
            Token::LeftCurly => Ok((Seq::empty(), p)),
            _ => Err(GParseError::UnexpectedToken { at: p as usize, file: fid, expected: Expected::TraitBound }),
        }
    } else {
        Err(GParseError::UnexpectedEof { file: fid, expected: Expected::TraitBound })
    }
}


/// A vector that starts with `first` and continues with `rest`.
fn prepend<T>(first: T, rest: Vec<T>) -> (r: Vec<T>)
    ensures
        r@ == seq![first] + rest@,
{
    let mut out: Vec<T> = Vec::new();
    let mut rest = rest;
    out.push(first);
    out.append(&mut rest);
    proof {
        assert(out@ =~= seq![first] + out@.subrange(1, out@.len() as int));
    }
    out
}

/// Reads one path: `name[generics]` segments joined by `/`, with `( ... )`
/// groups; yields an empty path when no segment starts here.
pub fn consume_a_path(toks: &Vec<Token>, pos: usize, fid: FileId) -> (r: Result<
    (Path, usize),
    ParseError,
>)
    requires
        pos <= toks.len(),
    ensures
        res_m(r, s_consume_a_path(toks@, pos as int, fid), |v: Path, g: GPath| path_models(v, g)),
        stays(r, pos as int, toks@.len() as int),
        (pos < toks@.len() && (toks@[pos as int] matches Token::Ident(_) || toks@[pos as int]
            == Token::LeftParenthesis) ==> moved(r, pos as int, toks@.len() as int)),
    decreases toks@.len() - pos, 3int,
{
    if pos < toks.len() && matches!(toks[pos], Token::Ident(_)) {
        let name = match toks[pos] {
            Token::Ident(sp) => sp,
            _ => Span { begin: 0, end: 0 },
        };
        match consume_generics(toks, pos + 1, fid) {
            Err(e) => Err(e),
            Ok((g, p2)) => {
                let ghost ggen = (match s_consume_generics(toks@, pos + 1, fid) {
                    Ok(v) => v.0,
                    Err(_) => Seq::empty(),
                });
                let node = PathNode::Singly { name, generics: g };
                let ghost gnode = GPathNode::Singly { name, generics: ggen };
                if p2 < toks.len() && matches!(toks[p2], Token::Slash) {
                    match consume_a_path(toks, p2 + 1, fid) {
                        Err(e) => Err(e),
                        Ok((rest, p3)) => {
                            let ghost grest = (match s_consume_a_path(toks@, p2 + 1, fid) {
                                Ok(v) => v.0,
                                Err(_) => Seq::empty(),
                            });
                            let out = prepend(node, rest.0);
                            proof {
                                let gs = seq![gnode] + grest;
                                assert forall|i: int|
                                    0 <= i < gs.len() implies pathnode_models(
                                    out@[i],
                                    #[trigger] gs[i],
                                ) by {
                                    if i > 0 {
                                        assert(gs[i] == grest[i - 1]);
                                        assert(out@[i] == rest.0@[i - 1]);
                                    }
                                }
                            }
                            Ok((Path(out), p3))
                        },
                    }
                } else {
                    let mut out: Vec<PathNode> = Vec::new();
                    out.push(node);
                    proof {
                        let gs = seq![gnode];
                        assert(out@ =~= seq![node]);
                        assert forall|i: int|
                            0 <= i < gs.len() implies pathnode_models(out@[i], #[trigger] gs[i])
                        by {
                        }
                    }
                    Ok((Path(out), p2))
                }
            },
        }
    } else if pos < toks.len() && matches!(toks[pos], Token::LeftParenthesis) {
        match multi_paths(toks, pos + 1, fid) {
            Err(e) => Err(e),
            Ok((vals, p2)) => {
                let ghost gvals = (match s_multi_paths(toks@, pos + 1, fid) {
                    Ok(v) => v.0,
                    Err(_) => Seq::empty(),
                });
                match must(toks, p2, fid, Token::RightParenthesis) {
                    Err(e) => Err(e),
                    Ok((_, p3)) => {
                        match consume_a_path(toks, p3, fid) {
                            Err(e) => Err(e),
                            Ok((rest, p4)) => {
                                let ghost grest = (match s_consume_a_path(toks@, p3 as int, fid) {
                                    Ok(v) => v.0,
                                    Err(_) => Seq::empty(),
                                });
                                let node = PathNode::Multi(vals);
                                let ghost gnode = GPathNode::Multi(gvals);
                                let out = prepend(node, rest.0);
                                proof {
                                    let gs = seq![gnode] + grest;
                                    assert forall|i: int|
                                        0 <= i < gs.len() implies pathnode_models(
                                        out@[i],
                                        #[trigger] gs[i],
                                    ) by {
                                        if i > 0 {
                                            assert(gs[i] == grest[i - 1]);
                                            assert(out@[i] == rest.0@[i - 1]);
                                        }
                                    }
                                }
                                Ok((Path(out), p4))
                            },
                        }
                    },
                }
            },
        }
    } else {
        let out: Vec<PathNode> = Vec::new();
        proof {
            assert(path_models(Path(out), Seq::<GPathNode>::empty()));
        }
        Ok((Path(out), pos))
    }
}

/// Reads the comma-separated paths of a group.
pub fn multi_paths(toks: &Vec<Token>, pos: usize, fid: FileId) -> (r: Result<
    (Vec<Path>, usize),
    ParseError,
>)
    requires
        pos <= toks.len(),
    ensures
        res_m(
            r,
            s_multi_paths(toks@, pos as int, fid),
            |v: Vec<Path>, g: Seq<GPath>| v@.len() == g.len() && (forall|i: int|
                0 <= i < g.len() ==> path_models(v@[i], #[trigger] g[i])),
        ),
        stays(r, pos as int, toks@.len() as int),
    decreases toks@.len() - pos, 4int,
{
    let p = skip_ws(toks, pos);
    match consume_a_path(toks, p, fid) {
        Err(e) => Err(e),
        Ok((path, p2)) => {
            let ghost gpath = (match s_consume_a_path(toks@, p as int, fid) {
                Ok(v) => v.0,
                Err(_) => Seq::empty(),
            });
            let p3 = skip_ws(toks, p2);
            if p3 < toks.len() && matches!(toks[p3], Token::Comma) {
                match multi_paths(toks, p3 + 1, fid) {
                    Err(e) => Err(e),
                    Ok((rest, p4)) => {
                        let ghost grest = (match s_multi_paths(toks@, p3 + 1, fid) {
                            Ok(v) => v.0,
                            Err(_) => Seq::empty(),
                        });
                        let out = prepend(path, rest);
                        proof {
                            let gs = seq![gpath] + grest;
                            assert forall|i: int|
                                0 <= i < gs.len() implies path_models(out@[i], #[trigger] gs[i])
                            by {
                                if i > 0 {
                                    assert(gs[i] == grest[i - 1]);
                                    assert(out@[i] == rest@[i - 1]);
                                }
                            }
                        }
                        Ok((out, p4))
                    },
                }
            } else {
                let mut out: Vec<Path> = Vec::new();
                out.push(path);
                proof {
                    let gs = seq![gpath];
                    assert forall|i: int|
                        0 <= i < gs.len() implies path_models(out@[i], #[trigger] gs[i]) by {
                    }
                }
                Ok((out, p3))
            }
        },
    }
}

/// Reads a generics list if one starts here, else yields the empty list.
pub fn consume_generics(toks: &Vec<Token>, pos: usize, fid: FileId) -> (r: Result<
    (Generics, usize),
    ParseError,
>)
    requires
        pos <= toks.len(),
    ensures
        res_m(
            r,
            s_consume_generics(toks@, pos as int, fid),
            |v: Generics, g: GGenerics| generics_models(v, g),
        ),
        stays(r, pos as int, toks@.len() as int),
    decreases toks@.len() - pos, 7int,
{
    let p = skip_ws(toks, pos);
    if p < toks.len() && matches!(toks[p], Token::LeftSquare) {
        generic_params(toks, p + 1, fid)
    } else {
        let out: Vec<Generic> = Vec::new();
        proof {
            assert(generics_models(Generics(out), Seq::<GGeneric>::empty()));
        }
        Ok((Generics(out), p))
    }
}

/// Reads the parameters of a generics list, up to the closing bracket.
pub fn generic_params(toks: &Vec<Token>, pos: usize, fid: FileId) -> (r: Result<
    (Generics, usize),
    ParseError,
>)
    requires
        pos <= toks.len(),
    ensures
        res_m(
            r,
            s_generic_params(toks@, pos as int, fid),
            |v: Generics, g: GGenerics| generics_models(v, g),
        ),
        stays(r, pos as int, toks@.len() as int),
    decreases toks@.len() - pos, 6int,
{
    let p = skip_ws(toks, pos);
    if p < toks.len() {
        match toks[p] {
            Token::Hash => {
                match must_ident(toks, p + 1, fid) {
                    Err(e) => Err(e),
                    Ok((name, p2)) => generic_tail(toks, p2, fid, name, GenericType::Lifetime),
                }
            },
            Token::Ident(name) => generic_tail(toks, p + 1, fid, name, GenericType::Generic),
            Token::RightSquare => {
                let out: Vec<Generic> = Vec::new();
                proof {
                    assert(generics_models(Generics(out), Seq::<GGeneric>::empty()));
                }
                Ok((Generics(out), p + 1))
            },
            Token::RightCurly => {
                let out: Vec<Generic> = Vec::new();
                proof {
                    assert(generics_models(Generics(out), Seq::<GGeneric>::empty()));
                }
                Ok((Generics(out), p + 1))
            },
            _ => Err(ParseError::UnexpectedToken { at: p, file: fid, expected: Expected::GenericParam }),
        }
    } else {
        Err(ParseError::UnexpectedEof { file: fid, expected: Expected::GenericParam })
    }
}

/// Reads what follows a generic parameter's name and the parameters after it.
fn generic_tail(toks: &Vec<Token>, pos: usize, fid: FileId, name: Span, gt: GenericType) -> (r:
    Result<(Generics, usize), ParseError>)
    requires
        pos <= toks.len(),
    ensures
        res_m(
            r,
            s_generic_tail(toks@, pos as int, fid, name, gt),
            |v: Generics, g: GGenerics| generics_models(v, g),
        ),
        stays(r, pos as int, toks@.len() as int),
    decreases toks@.len() - pos, 6int,
{
    let p = skip_ws(toks, pos);
    if p < toks.len() {
        match toks[p] {
            Token::Colon => {
                match consume_traits(toks, p + 1, fid) {
                    Err(e) => Err(e),
                    Ok((tr, p2)) => {
                        let ghost gtr = (match s_consume_traits(toks@, p + 1, fid) {
                            Ok(v) => v.0,
                            Err(_) => Seq::empty(),
                        });
                        let g = Generic { name, generictype: gt, traits: tr };
                        let ghost gg = GGeneric { name, generictype: gt, traits: gtr };
                        let p3 = skip_ws(toks, p2);
                        let next = if p3 < toks.len() && matches!(toks[p3], Token::Comma) {
                            generic_params(toks, p3 + 1, fid)
                        } else {
                            generic_params(toks, p3, fid)
                        };
                        match next {
                            Err(e) => Err(e),
                            Ok((rest, p4)) => {
                                let ghost grest = (if p3 < toks@.len() && toks@[p3 as int]
                                    == Token::Comma {
                                    match s_generic_params(toks@, p3 + 1, fid) {
                                        Ok(v) => v.0,
                                        Err(_) => Seq::empty(),
                                    }
                                } else {
                                    match s_generic_params(toks@, p3 as int, fid) {
                                        Ok(v) => v.0,
                                        Err(_) => Seq::empty(),
                                    }
                                });
                                let out = prepend(g, rest.0);
                                proof {
                                    let gs = seq![gg] + grest;
                                    assert forall|i: int|
                                        0 <= i < gs.len() implies generic_models(
                                        out@[i],
                                        #[trigger] gs[i],
                                    ) by {
                                        if i > 0 {
                                            assert(gs[i] == grest[i - 1]);
                                            assert(out@[i] == rest.0@[i - 1]);
                                        }
                                    }
                                }
                                Ok((Generics(out), p4))
                            },
                        }
                    },
                }
            },
            Token::Comma => {
                let g = Generic { name, generictype: gt, traits: Traits(Vec::new()) };
                let ghost gg = GGeneric { name, generictype: gt, traits: Seq::empty() };
                match generic_params(toks, p + 1, fid) {
                    Err(e) => Err(e),
                    Ok((rest, p4)) => {
                        let ghost grest = (match s_generic_params(toks@, p + 1, fid) {
                            Ok(v) => v.0,
                            Err(_) => Seq::empty(),
                        });
                        let out = prepend(g, rest.0);
                        proof {
                            let gs = seq![gg] + grest;
                            assert forall|i: int|
                                0 <= i < gs.len() implies generic_models(out@[i], #[trigger] gs[i])
                            by {
                                if i > 0 {
                                    assert(gs[i] == grest[i - 1]);
                                    assert(out@[i] == rest.0@[i - 1]);
                                }
                            }
                        }
                        Ok((Generics(out), p4))
                    },
                }
            },
            Token::RightSquare => {
                let g = Generic { name, generictype: gt, traits: Traits(Vec::new()) };
                let ghost gg = GGeneric { name, generictype: gt, traits: Seq::empty() };
                let mut out: Vec<Generic> = Vec::new();
                out.push(g);
                proof {
                    let gs = seq![gg];
                    assert forall|i: int|
                        0 <= i < gs.len() implies generic_models(out@[i], #[trigger] gs[i]) by {
                    }
                }
                Ok((Generics(out), p + 1))
            },
            _ => Err(ParseError::UnexpectedToken { at: p, file: fid, expected: Expected::GenericParam }),
        }
    } else {
        Err(ParseError::UnexpectedEof { file: fid, expected: Expected::GenericParam })
    }
}

/// Reads trait bounds joined by `+`.
pub fn consume_traits(toks: &Vec<Token>, pos: usize, fid: FileId) -> (r: Result<
    (Traits, usize),
    ParseError,
>)
    requires
        pos <= toks.len(),
    ensures
        res_m(
            r,
            s_consume_traits(toks@, pos as int, fid),
            |v: Traits, g: Seq<GPath>| traits_models(v, g),
        ),
        stays(r, pos as int, toks@.len() as int),
    decreases toks@.len() - pos, 5int,
{
    let p = skip_ws(toks, pos);
    if p < toks.len() {
        match toks[p] {
            Token::Ident(_) => {
                match consume_a_path(toks, p, fid) {
                    Err(e) => Err(e),
                    Ok((path, p2)) => {
                        let ghost gpath = (match s_consume_a_path(toks@, p as int, fid) {
                            Ok(v) => v.0,
                            Err(_) => Seq::empty(),
                        });
                        if p2 <= p {
                            proof {
                                assert(false);
                            }
                            Err(ParseError::UnexpectedEof { file: fid, expected: Expected::TraitBound })
                        } else {
                            let p3 = skip_ws(toks, p2);
                            if p3 < toks.len() && matches!(toks[p3], Token::Plus) {
                                match consume_traits(toks, p3 + 1, fid) {
                                    Err(e) => Err(e),
                                    Ok((rest, p4)) => {
                                        let ghost grest = (match s_consume_traits(
                                            toks@,
                                            p3 + 1,
                                            fid,
                                        ) {
                                            Ok(v) => v.0,
                                            Err(_) => Seq::empty(),
                                        });
                                        let out = prepend(path, rest.0);
                                        proof {
                                            let gs = seq![gpath] + grest;
                                            assert forall|i: int|
                                                0 <= i < gs.len() implies path_models(
                                                out@[i],
                                                #[trigger] gs[i],
                                            ) by {
                                                if i > 0 {
                                                    assert(gs[i] == grest[i - 1]);
                                                    assert(out@[i] == rest.0@[i - 1]);
                                                }
                                            }
                                        }
                                        Ok((Traits(out), p4))
                                    },
                                }
                            } else {
                                let mut out: Vec<Path> = Vec::new();
                                out.push(path);
                                proof {
                                    let gs = seq![gpath];
                                    assert forall|i: int|
                                        0 <= i < gs.len() implies path_models(
                                        out@[i],
                                        #[trigger] gs[i],
                                    ) by {
                                    }
                                }
                                Ok((Traits(out), p3))
                            }
                        }
                    },
                }
            },
            Token::Comma | Token::RightSquare | Token::LeftCurly => {
                let out: Vec<Path> = Vec::new();
                proof {
                    assert(traits_models(Traits(out), Seq::<GPath>::empty()));
                }
                Ok((Traits(out), p))
            },
            _ => Err(ParseError::UnexpectedToken { at: p, file: fid, expected: Expected::TraitBound }),
        }
    } else {
        Err(ParseError::UnexpectedEof { file: fid, expected: Expected::TraitBound })
    }
}


// ---------------------------------------------------------------------------
// Expressions. Every binary operator binds alike and associates to the right:
// after a primary expression, one operator token may follow, and its right
// operand is a whole expression.
// ---------------------------------------------------------------------------

/// The binary operator a token stands for, if any. A bare `%` is not an
/// operator token of the expression grammar.
pub open spec fn s_binop_of(t: Token) -> Option<BinaryOpType> {
    match t {
        Token::Plus => Some(BinaryOpType::Add),
        Token::Minus => Some(BinaryOpType::Subtract),
        Token::Asterisk => Some(BinaryOpType::Multiply),
        Token::Slash => Some(BinaryOpType::Divide),
        Token::PlusEqual => Some(BinaryOpType::AddEqual),
        Token::MinusEqual => Some(BinaryOpType::SubtractEqual),
        Token::AsteriskEqual => Some(BinaryOpType::MultiplyEqual),
        Token::SlashEqual => Some(BinaryOpType::DivideEqual),
        Token::ModEqual => Some(BinaryOpType::ModEqual),
        _ => None,
    }
}

/// One whole expression: a primary expression, then an optional operator and
/// right operand.
pub open spec fn s_consume_an_expression(toks: Seq<Token>, pos: int, fid: FileId) -> Result<
    (GExpression, int),
    GParseError,
>
    decreases toks.len() - pos, 8int,
{
    let p = s_skip_ws(toks, pos);
    if !within(pos, p, toks.len() as int) {
        Err(g_stuck(fid))
    } else if p < toks.len() {
        let prim = match toks[p] {
            Token::Digit { val, digittype } => s_consume_number_expression(toks, p, fid),
            Token::String(_) => s_consume_string_expression(toks, p, fid),
            Token::LeftParenthesis => s_consume_tuple_expression(toks, p, fid),
            Token::LeftSquare => s_consume_list_expression(toks, p, fid),
            Token::Tilde => s_consume_tilde_expression(toks, p, fid),
            Token::Ident(_) => s_consume_path_expression(toks, p, fid),
            Token::RequiredKeyword => s_consume_required_expression(toks, p, fid),
            Token::SwitchKeyword => s_consume_switch_expression(toks, p, fid),
            _ => Err(GParseError::UnexpectedToken { at: p as usize, file: fid, expected: Expected::ExpressionStart }),
        };
        match prim {
            Err(e) => Err(e),
            Ok((g, p2)) => {
                if !(p < p2 <= toks.len()) {
                    Err(g_stuck(fid))
                } else {
                    s_check_expression_rhs(toks, p2, fid, g)
                }
            },
        }
    } else {
        Err(GParseError::UnexpectedEof { file: fid, expected: Expected::ExpressionStart })
    }
}

/// An optional operator and right operand after a primary expression.
pub open spec fn s_check_expression_rhs(
    toks: Seq<Token>,
    pos: int,
    fid: FileId,
    lhs: GExpression,
) -> Result<(GExpression, int), GParseError>
    decreases toks.len() - pos, 1int,
{
    let p = s_skip_ws(toks, pos);
    if !within(pos, p, toks.len() as int) {
        Err(g_stuck(fid))
    } else if p < toks.len() && s_binop_of(toks[p]) is Some {
        let op = s_binop_of(toks[p]).unwrap();
        match s_consume_an_expression(toks, p + 1, fid) {
            Err(e) => Err(e),
            Ok((rhs, p2)) => Ok(
                (
                    GExpression::BinaryOp {
                        optype: op,
                        lhs: Box::new(lhs),
                        rhs: Box::new(rhs),
                    },
                    p2,
                ),
            ),
        }
    } else {
        Ok((lhs, p))
    }
}

/// A digit literal.
pub open spec fn s_consume_number_expression(toks: Seq<Token>, pos: int, fid: FileId) -> Result<
    (GExpression, int),
    GParseError,
>
    decreases toks.len() - pos, 7int,
{
    if 0 <= pos < toks.len() && toks[pos] matches Token::Digit { val, digittype } {
        Ok((GExpression::Number { value: toks[pos]->Digit_val, digittype: toks[pos]->Digit_digittype }, pos + 1))
    } else {
        Err(GParseError::UnexpectedToken { at: pos as usize, file: fid, expected: Expected::ExpressionStart })
    }
}

/// A string literal, read as a path with the literal as its one segment.
pub open spec fn s_consume_string_expression(toks: Seq<Token>, pos: int, fid: FileId) -> Result<
    (GExpression, int),
    GParseError,
>
    decreases toks.len() - pos, 7int,
{
    if 0 <= pos < toks.len() && toks[pos] matches Token::String(sp) {
        Ok(
            (
                GExpression::PathExpr(
                    seq![GPathNode::Singly { name: toks[pos]->String_0, generics: Seq::empty() }],
                ),
                pos + 1,
            ),
        )
    } else {
        Err(GParseError::UnexpectedToken { at: pos as usize, file: fid, expected: Expected::ExpressionStart })
    }
}

/// `( e (, e)* )`.
pub open spec fn s_consume_tuple_expression(toks: Seq<Token>, pos: int, fid: FileId) -> Result<
    (GExpression, int),
    GParseError,
>
    decreases toks.len() - pos, 7int,
{
    if 0 <= pos < toks.len() && toks[pos] == Token::LeftParenthesis {
        match s_tuple_items(toks, pos + 1, fid) {
            Err(e) => Err(e),
            Ok((vals, p2)) => Ok((GExpression::Tuple(vals), p2)),
        }
    } else {
        Err(GParseError::UnexpectedToken { at: pos as usize, file: fid, expected: Expected::ExpressionStart })
    }
}

/// The elements of a tuple, up to the closing parenthesis.
pub open spec fn s_tuple_items(toks: Seq<Token>, pos: int, fid: FileId) -> Result<
    (Seq<GExpression>, int),
    GParseError,
>
    decreases toks.len() - pos, 9int,
{
    match s_consume_an_expression(toks, pos, fid) {
        Err(e) => Err(e),
        Ok((e0, p2)) => {
            if !(pos < p2 <= toks.len()) {
                Err(g_stuck(fid))
            } else {
                let p3 = s_skip_ws(toks, p2);
                if !within(p2, p3, toks.len() as int) {
                    Err(g_stuck(fid))
                } else if p3 < toks.len() && toks[p3] == Token::Comma {
                    match s_tuple_items(toks, p3 + 1, fid) {
                        Err(e) => Err(e),
                        Ok((rest, p4)) => Ok((seq![e0] + rest, p4)),
                    }
                } else if p3 < toks.len() && toks[p3] == Token::RightParenthesis {
                    Ok((seq![e0], p3 + 1))
                } else if p3 < toks.len() {
                    Err(GParseError::UnexpectedToken {
                        at: p3 as usize,
                        file: fid,
                        expected: Expected::AToken(Token::RightParenthesis),
                    })
                } else {
                    Err(GParseError::UnexpectedEof {
                        file: fid,
                        expected: Expected::AToken(Token::RightParenthesis),
                    })
                }
            }
        },
    }
}

/// `[ e (, e)* ]`.
pub open spec fn s_consume_list_expression(toks: Seq<Token>, pos: int, fid: FileId) -> Result<
    (GExpression, int),
    GParseError,
>
    decreases toks.len() - pos, 7int,
{
    if 0 <= pos < toks.len() && toks[pos] == Token::LeftSquare {
        match s_list_items(toks, pos + 1, fid) {
            Err(e) => Err(e),
            Ok((vals, p2)) => Ok((GExpression::List(vals), p2)),
        }
    } else {
        Err(GParseError::UnexpectedToken { at: pos as usize, file: fid, expected: Expected::ExpressionStart })
    }
}

/// The elements of a list, up to the closing bracket.
pub open spec fn s_list_items(toks: Seq<Token>, pos: int, fid: FileId) -> Result<
    (Seq<GExpression>, int),
    GParseError,
>
    decreases toks.len() - pos, 9int,
{
    match s_consume_an_expression(toks, pos, fid) {
        Err(e) => Err(e),
        Ok((e0, p2)) => {
            if !(pos < p2 <= toks.len()) {
                Err(g_stuck(fid))
            } else {
                let p3 = s_skip_ws(toks, p2);
                if !within(p2, p3, toks.len() as int) {
                    Err(g_stuck(fid))
                } else if p3 < toks.len() && toks[p3] == Token::Comma {
                    match s_list_items(toks, p3 + 1, fid) {
                        Err(e) => Err(e),
                        Ok((rest, p4)) => Ok((seq![e0] + rest, p4)),
                    }
                } else if p3 < toks.len() && toks[p3] == Token::RightSquare {
                    Ok((seq![e0], p3 + 1))
                } else if p3 < toks.len() {
                    Err(GParseError::UnexpectedToken {
                        at: p3 as usize,
                        file: fid,
                        expected: Expected::AToken(Token::RightSquare),
                    })
                } else {
                    Err(GParseError::UnexpectedEof {
                        file: fid,
                        expected: Expected::AToken(Token::RightSquare),
                    })
                }
            }
        },
    }
}

/// `~ e`.
pub open spec fn s_consume_tilde_expression(toks: Seq<Token>, pos: int, fid: FileId) -> Result<
    (GExpression, int),
    GParseError,
>
    decreases toks.len() - pos, 7int,
{
    if 0 <= pos < toks.len() && toks[pos] == Token::Tilde {
        match s_consume_an_expression(toks, pos + 1, fid) {
            Err(e) => Err(e),
            Ok((e0, p2)) => Ok((GExpression::Tilde(Box::new(e0)), p2)),
        }
    } else {
        Err(GParseError::UnexpectedToken { at: pos as usize, file: fid, expected: Expected::ExpressionStart })
    }
}

/// `required e`.
pub open spec fn s_consume_required_expression(toks: Seq<Token>, pos: int, fid: FileId) -> Result<
    (GExpression, int),
    GParseError,
>
    decreases toks.len() - pos, 7int,
{
    if 0 <= pos < toks.len() && toks[pos] == Token::RequiredKeyword {
        match s_consume_an_expression(toks, pos + 1, fid) {
            Err(e) => Err(e),
            Ok((e0, p2)) => Ok((GExpression::Required(Box::new(e0)), p2)),
        }
    } else {
        Err(GParseError::UnexpectedToken { at: pos as usize, file: fid, expected: Expected::ExpressionStart })
    }
}

/// A path used as an expression; trailing whitespace is discarded.
pub open spec fn s_consume_path_expression(toks: Seq<Token>, pos: int, fid: FileId) -> Result<
    (GExpression, int),
    GParseError,
>
    decreases toks.len() - pos, 7int,
{
    if 0 <= pos < toks.len() && toks[pos] matches Token::Ident(_) {
        match s_consume_a_path(toks, pos, fid) {
            Err(e) => Err(e),
            Ok((path, p2)) => {
                if !(pos < p2 <= toks.len()) {
                    Err(g_stuck(fid))
                } else {
                    let p3 = s_skip_ws(toks, p2);
                    if !within(p2, p3, toks.len() as int) {
                        Err(g_stuck(fid))
                    } else {
                        Ok((GExpression::PathExpr(path), p3))
                    }
                }
            },
        }
    } else {
        Err(GParseError::UnexpectedToken { at: pos as usize, file: fid, expected: Expected::ExpressionStart })
    }
}

/// `switch e { arm (, arm)* }`.
pub open spec fn s_consume_switch_expression(toks: Seq<Token>, pos: int, fid: FileId) -> Result<
    (GExpression, int),
    GParseError,
>
    decreases toks.len() - pos, 7int,
{
    if 0 <= pos < toks.len() && toks[pos] == Token::SwitchKeyword {
        match s_consume_an_expression(toks, pos + 1, fid) {
            Err(e) => Err(e),
            Ok((pred, p2)) => {
                if !(pos < p2 <= toks.len()) {
                    Err(g_stuck(fid))
                } else {
                    match s_must(toks, p2, fid, Token::LeftCurly) {
                        Err(e) => Err(e),
                        Ok((_, p3)) => {
                            if !(p2 <= p3 <= toks.len()) {
                                Err(g_stuck(fid))
                            } else {
                                match s_switch_arms(toks, p3, fid) {
                                    Err(e) => Err(e),
                                    Ok((arms, p4)) => Ok(
                                        (
                                            GExpression::Switch {
                                                predicate: Box::new(pred),
                                                arms,
                                            },
                                            p4,
                                        ),
                                    ),
                                }
                            }
                        },
                    }
                }
            },
        }
    } else {
        Err(GParseError::UnexpectedToken { at: pos as usize, file: fid, expected: Expected::ExpressionStart })
    }
}

/// The arms of a switch block, up to the closing brace.
pub open spec fn s_switch_arms(toks: Seq<Token>, pos: int, fid: FileId) -> Result<
    (Seq<GSwitchArm>, int),
    GParseError,
>
    decreases toks.len() - pos, 10int,
{
    let p = s_skip_ws(toks, pos);
    if !within(pos, p, toks.len() as int) {
        Err(g_stuck(fid))
    } else if p < toks.len() && toks[p] == Token::RightCurly {
        Ok((Seq::empty(), p + 1))
    } else {
        match s_consume_switch_arm(toks, p, fid) {
            Err(e) => Err(e),
            Ok((arm, p2)) => {
                if !(p < p2 <= toks.len()) {
                    Err(g_stuck(fid))
                } else {
                    let p3 = s_skip_ws(toks, p2);
                    if !within(p2, p3, toks.len() as int) {
                        Err(g_stuck(fid))
                    } else if p3 < toks.len() && toks[p3] == Token::Comma {
                        match s_switch_arms(toks, p3 + 1, fid) {
                            Err(e) => Err(e),
                            Ok((rest, p4)) => Ok((seq![arm] + rest, p4)),
                        }
                    } else {
                        match s_switch_arms(toks, p3, fid) {
                            Err(e) => Err(e),
                            Ok((rest, p4)) => Ok((seq![arm] + rest, p4)),
                        }
                    }
                }
            },
        }
    }
}

/// One `lhs -> rhs` arm of a switch block.
pub open spec fn s_consume_switch_arm(toks: Seq<Token>, pos: int, fid: FileId) -> Result<
    (GSwitchArm, int),
    GParseError,
>
    decreases toks.len() - pos, 9int,
{
    match s_consume_an_expression(toks, pos, fid) {
        Err(e) => Err(e),
        Ok((lhs, p2)) => {
            if !(pos < p2 <= toks.len()) {
                Err(g_stuck(fid))
            } else {
                match s_must(toks, p2, fid, Token::ThinArrow) {
                    Err(e) => Err(e),
                    Ok((_, p3)) => {
                        if !(p2 <= p3 <= toks.len()) {
                            Err(g_stuck(fid))
                        } else {
                            match s_consume_an_expression(toks, p3, fid) {
                                Err(e) => Err(e),
                                Ok((rhs, p4)) => Ok(
                                    (GSwitchArm { lhs: Box::new(lhs), rhs: Box::new(rhs) }, p4),
                                ),
                            }
                        }
                    },
                }
            }
        },
    }
}


/// The executable twin of `s_binop_of`.
fn binop_of(t: Token) -> (r: Option<BinaryOpType>)
    ensures
        r == s_binop_of(t),
{
    match t {
        Token::Plus => Some(BinaryOpType::Add),
        Token::Minus => Some(BinaryOpType::Subtract),
        Token::Asterisk => Some(BinaryOpType::Multiply),
        Token::Slash => Some(BinaryOpType::Divide),
        Token::PlusEqual => Some(BinaryOpType::AddEqual),
        Token::MinusEqual => Some(BinaryOpType::SubtractEqual),
        Token::AsteriskEqual => Some(BinaryOpType::MultiplyEqual),
        Token::SlashEqual => Some(BinaryOpType::DivideEqual),
        Token::ModEqual => Some(BinaryOpType::ModEqual),
        _ => None,
    }
}

/// Reads one whole expression.
pub fn consume_an_expression(toks: &Vec<Token>, pos: usize, fid: FileId) -> (r: Result<
    (Expression, usize),
    ParseError,
>)
    requires
        pos <= toks.len(),
    ensures
        res_m(
            r,
            s_consume_an_expression(toks@, pos as int, fid),
            |v: Expression, g: GExpression| expr_models(v, g),
        ),
        moved(r, pos as int, toks@.len() as int),
    decreases toks@.len() - pos, 8int,
{
    let p = skip_ws(toks, pos);
    if p < toks.len() {
        let prim = match toks[p] {
            Token::Digit { .. } => consume_number_expression(toks, p, fid),
            Token::String(_) => consume_string_expression(toks, p, fid),
            Token::LeftParenthesis => consume_tuple_expression(toks, p, fid),
            Token::LeftSquare => consume_list_expression(toks, p, fid),
            Token::Tilde => consume_tilde_expression(toks, p, fid),
            Token::Ident(_) => consume_path_expression(toks, p, fid),
            Token::RequiredKeyword => consume_required_expression(toks, p, fid),
            Token::SwitchKeyword => consume_switch_expression(toks, p, fid),
            _ => Err(ParseError::UnexpectedToken { at: p, file: fid, expected: Expected::ExpressionStart }),
        };
        match prim {
            Err(e) => Err(e),
            Ok((v, p2)) => {
                let ghost gprim = (match toks@[p as int] {
                    Token::Digit { .. } => s_consume_number_expression(toks@, p as int, fid),
                    Token::String(_) => s_consume_string_expression(toks@, p as int, fid),
                    Token::LeftParenthesis => s_consume_tuple_expression(toks@, p as int, fid),
                    Token::LeftSquare => s_consume_list_expression(toks@, p as int, fid),
                    Token::Tilde => s_consume_tilde_expression(toks@, p as int, fid),
                    Token::Ident(_) => s_consume_path_expression(toks@, p as int, fid),
                    Token::RequiredKeyword => s_consume_required_expression(toks@, p as int, fid),
                    Token::SwitchKeyword => s_consume_switch_expression(toks@, p as int, fid),
                    _ => Err(g_stuck(fid)),
                });
                let ghost g = (match gprim {
                    Ok(w) => w.0,
                    Err(_) => arbitrary(),
                });
                check_expression_rhs(toks, p2, fid, v, Ghost(g))
            },
        }
    } else {
        Err(ParseError::UnexpectedEof { file: fid, expected: Expected::ExpressionStart })
    }
}

/// Reads an optional operator and right operand after `lhs`.
fn check_expression_rhs(
    toks: &Vec<Token>,
    pos: usize,
    fid: FileId,
    lhs: Expression,
    Ghost(glhs): Ghost<GExpression>,
) -> (r: Result<(Expression, usize), ParseError>)
    requires
        pos <= toks.len(),
        expr_models(lhs, glhs),
    ensures
        res_m(
            r,
            s_check_expression_rhs(toks@, pos as int, fid, glhs),
            |v: Expression, g: GExpression| expr_models(v, g),
        ),
        stays(r, pos as int, toks@.len() as int),
    decreases toks@.len() - pos, 1int,
{
    let p = skip_ws(toks, pos);
    if p < toks.len() {
        match binop_of(toks[p]) {
            Some(op) => {
                match consume_an_expression(toks, p + 1, fid) {
                    Err(e) => Err(e),
                    Ok((rhs, p2)) => {
                        let ghost grhs = (match s_consume_an_expression(toks@, p + 1, fid) {
                            Ok(w) => w.0,
                            Err(_) => arbitrary(),
                        });
                        let out = Expression::BinaryOpExpression {
                            optype: op,
                            lhs: Box::new(lhs),
                            rhs: Box::new(rhs),
                        };
                        proof {
                            assert(expr_models(
                                out,
                                GExpression::BinaryOp {
                                    optype: op,
                                    lhs: Box::new(glhs),
                                    rhs: Box::new(grhs),
                                },
                            ));
                        }
                        Ok((out, p2))
                    },
                }
            },
            None => Ok((lhs, p)),
        }
    } else {
        Ok((lhs, p))
    }
}

/// Reads a digit literal expression.
pub fn consume_number_expression(toks: &Vec<Token>, pos: usize, fid: FileId) -> (r: Result<
    (Expression, usize),
    ParseError,
>)
    requires
        pos <= toks.len(),
    ensures
        res_m(
            r,
            s_consume_number_expression(toks@, pos as int, fid),
            |v: Expression, g: GExpression| expr_models(v, g),
        ),
        moved(r, pos as int, toks@.len() as int),
{
    if pos < toks.len() {
        match toks[pos] {
            Token::Digit { val, digittype } => Ok(
                (Expression::NumberExpression { value: val, digittype }, pos + 1),
            ),
            _ => Err(ParseError::UnexpectedToken { at: pos, file: fid, expected: Expected::ExpressionStart }),
        }
    } else {
        Err(ParseError::UnexpectedToken { at: pos, file: fid, expected: Expected::ExpressionStart })
    }
}

/// Reads a string literal as a one-segment path expression.
pub fn consume_string_expression(toks: &Vec<Token>, pos: usize, fid: FileId) -> (r: Result<
    (Expression, usize),
    ParseError,
>)
    requires
        pos <= toks.len(),
    ensures
        res_m(
            r,
            s_consume_string_expression(toks@, pos as int, fid),
            |v: Expression, g: GExpression| expr_models(v, g),
        ),
        moved(r, pos as int, toks@.len() as int),
{
    if pos < toks.len() {
        match toks[pos] {
            Token::String(sp) => {
                let node = PathNode::Singly { name: sp, generics: Generics(Vec::new()) };
                let ghost nodeg = node;
                let mut segs: Vec<PathNode> = Vec::new();
                segs.push(node);
                let ghost segv = segs@;
                let pathv = Path(segs);
                let out = Expression::PathExpression { value: pathv };
                proof {
                    let gp = seq![GPathNode::Singly { name: sp, generics: Seq::empty() }];
                    assert(pathnode_models(nodeg, gp[0]));
                    assert forall|i: int| 0 <= i < gp.len() implies pathnode_models(
                        segv[i],
                        #[trigger] gp[i],
                    ) by {
                        assert(segv[i] == nodeg);
                    }
                    assert(path_models(pathv, gp));
                    assert(expr_models(out, GExpression::PathExpr(gp)));
                }
                Ok((out, pos + 1))
            },
            _ => Err(ParseError::UnexpectedToken { at: pos, file: fid, expected: Expected::ExpressionStart }),
        }
    } else {
        Err(ParseError::UnexpectedToken { at: pos, file: fid, expected: Expected::ExpressionStart })
    }
}

/// Reads a tuple expression.
pub fn consume_tuple_expression(toks: &Vec<Token>, pos: usize, fid: FileId) -> (r: Result<
    (Expression, usize),
    ParseError,
>)
    requires
        pos <= toks.len(),
    ensures
        res_m(
            r,
            s_consume_tuple_expression(toks@, pos as int, fid),
            |v: Expression, g: GExpression| expr_models(v, g),
        ),
        moved(r, pos as int, toks@.len() as int),
    decreases toks@.len() - pos, 7int,
{
    if pos < toks.len() && matches!(toks[pos], Token::LeftParenthesis) {
        match tuple_items(toks, pos + 1, fid) {
            Err(e) => Err(e),
            Ok((vals, p2)) => Ok((Expression::TupleExpression { values: vals }, p2)),
        }
    } else {
        Err(ParseError::UnexpectedToken { at: pos, file: fid, expected: Expected::ExpressionStart })
    }
}

/// Reads the elements of a tuple, up to the closing parenthesis.
fn tuple_items(toks: &Vec<Token>, pos: usize, fid: FileId) -> (r: Result<
    (Vec<Expression>, usize),
    ParseError,
>)
    requires
        pos <= toks.len(),
    ensures
        res_m(
            r,
            s_tuple_items(toks@, pos as int, fid),
            |v: Vec<Expression>, g: Seq<GExpression>| v@.len() == g.len() && (forall|i: int|
                0 <= i < g.len() ==> expr_models(v@[i], #[trigger] g[i])),
        ),
        stays(r, pos as int, toks@.len() as int),
    decreases toks@.len() - pos, 9int,
{
    match consume_an_expression(toks, pos, fid) {
        Err(e) => Err(e),
        Ok((e0, p2)) => {
            let ghost g0 = (match s_consume_an_expression(toks@, pos as int, fid) {
                Ok(w) => w.0,
                Err(_) => arbitrary(),
            });
            let p3 = skip_ws(toks, p2);
            if p3 < toks.len() && matches!(toks[p3], Token::Comma) {
                match tuple_items(toks, p3 + 1, fid) {
                    Err(e) => Err(e),
                    Ok((rest, p4)) => {
                        let ghost grest = (match s_tuple_items(toks@, p3 + 1, fid) {
                            Ok(w) => w.0,
                            Err(_) => arbitrary(),
                        });
                        let out = prepend(e0, rest);
                        proof {
                            let gs = seq![g0] + grest;
                            assert forall|i: int|
                                0 <= i < gs.len() implies expr_models(out@[i], #[trigger] gs[i])
                            by {
                                if i > 0 {
                                    assert(gs[i] == grest[i - 1]);
                                    assert(out@[i] == rest@[i - 1]);
                                }
                            }
                        }
                        Ok((out, p4))
                    },
                }
            } else if p3 < toks.len() && matches!(toks[p3], Token::RightParenthesis) {
                let mut out: Vec<Expression> = Vec::new();
                out.push(e0);
                proof {
                    let gs = seq![g0];
                    assert forall|i: int|
                        0 <= i < gs.len() implies expr_models(out@[i], #[trigger] gs[i]) by {
                    }
                }
                Ok((out, p3 + 1))
            } else if p3 < toks.len() {
                Err(ParseError::UnexpectedToken {
                    at: p3,
                    file: fid,
                    expected: Expected::AToken(Token::RightParenthesis),
                })
            } else {
                Err(ParseError::UnexpectedEof {
                    file: fid,
                    expected: Expected::AToken(Token::RightParenthesis),
                })
            }
        },
    }
}

/// Reads a list expression.
pub fn consume_list_expression(toks: &Vec<Token>, pos: usize, fid: FileId) -> (r: Result<
    (Expression, usize),
    ParseError,
>)
    requires
        pos <= toks.len(),
    ensures
        res_m(
            r,
            s_consume_list_expression(toks@, pos as int, fid),
            |v: Expression, g: GExpression| expr_models(v, g),
        ),
        moved(r, pos as int, toks@.len() as int),
    decreases toks@.len() - pos, 7int,
{
    if pos < toks.len() && matches!(toks[pos], Token::LeftSquare) {
        match list_items(toks, pos + 1, fid) {
            Err(e) => Err(e),
            Ok((vals, p2)) => Ok((Expression::ListExpression { values: vals }, p2)),
        }
    } else {
        Err(ParseError::UnexpectedToken { at: pos, file: fid, expected: Expected::ExpressionStart })
    }
}

/// Reads the elements of a list, up to the closing bracket.
fn list_items(toks: &Vec<Token>, pos: usize, fid: FileId) -> (r: Result<
    (Vec<Expression>, usize),
    ParseError,
>)
    requires
        pos <= toks.len(),
    ensures
        res_m(
            r,
            s_list_items(toks@, pos as int, fid),
            |v: Vec<Expression>, g: Seq<GExpression>| v@.len() == g.len() && (forall|i: int|
                0 <= i < g.len() ==> expr_models(v@[i], #[trigger] g[i])),
        ),
        stays(r, pos as int, toks@.len() as int),
    decreases toks@.len() - pos, 9int,
{
    match consume_an_expression(toks, pos, fid) {
        Err(e) => Err(e),
        Ok((e0, p2)) => {
            let ghost g0 = (match s_consume_an_expression(toks@, pos as int, fid) {
                Ok(w) => w.0,
                Err(_) => arbitrary(),
            });
            let p3 = skip_ws(toks, p2);
            if p3 < toks.len() && matches!(toks[p3], Token::Comma) {
                match list_items(toks, p3 + 1, fid) {
                    Err(e) => Err(e),
                    Ok((rest, p4)) => {
                        let ghost grest = (match s_list_items(toks@, p3 + 1, fid) {
                            Ok(w) => w.0,
                            Err(_) => arbitrary(),
                        });
                        let out = prepend(e0, rest);
                        proof {
                            let gs = seq![g0] + grest;
                            assert forall|i: int|
                                0 <= i < gs.len() implies expr_models(out@[i], #[trigger] gs[i])
                            by {
                                if i > 0 {
                                    assert(gs[i] == grest[i - 1]);
                                    assert(out@[i] == rest@[i - 1]);
                                }
                            }
                        }
                        Ok((out, p4))
                    },
                }
            } else if p3 < toks.len() && matches!(toks[p3], Token::RightSquare) {
                let mut out: Vec<Expression> = Vec::new();
                out.push(e0);
                proof {
                    let gs = seq![g0];
                    assert forall|i: int|
                        0 <= i < gs.len() implies expr_models(out@[i], #[trigger] gs[i]) by {
                    }
                }
                Ok((out, p3 + 1))
            } else if p3 < toks.len() {
                Err(ParseError::UnexpectedToken {
                    at: p3,
                    file: fid,
                    expected: Expected::AToken(Token::RightSquare),
                })
            } else {
                Err(ParseError::UnexpectedEof {
                    file: fid,
                    expected: Expected::AToken(Token::RightSquare),
                })
            }
        },
    }
}

/// Reads a `~` expression.
pub fn consume_tilde_expression(toks: &Vec<Token>, pos: usize, fid: FileId) -> (r: Result<
    (Expression, usize),
    ParseError,
>)
    requires
        pos <= toks.len(),
    ensures
        res_m(
            r,
            s_consume_tilde_expression(toks@, pos as int, fid),
            |v: Expression, g: GExpression| expr_models(v, g),
        ),
        moved(r, pos as int, toks@.len() as int),
    decreases toks@.len() - pos, 7int,
{
    if pos < toks.len() && matches!(toks[pos], Token::Tilde) {
        match consume_an_expression(toks, pos + 1, fid) {
            Err(e) => Err(e),
            Ok((e0, p2)) => Ok((Expression::TildeExpression { value: Box::new(e0) }, p2)),
        }
    } else {
        Err(ParseError::UnexpectedToken { at: pos, file: fid, expected: Expected::ExpressionStart })
    }
}

/// Reads a `required` expression.
pub fn consume_required_expression(toks: &Vec<Token>, pos: usize, fid: FileId) -> (r: Result<
    (Expression, usize),
    ParseError,
>)
    requires
        pos <= toks.len(),
    ensures
        res_m(
            r,
            s_consume_required_expression(toks@, pos as int, fid),
            |v: Expression, g: GExpression| expr_models(v, g),
        ),
        moved(r, pos as int, toks@.len() as int),
    decreases toks@.len() - pos, 7int,
{
    if pos < toks.len() && matches!(toks[pos], Token::RequiredKeyword) {
        match consume_an_expression(toks, pos + 1, fid) {
            Err(e) => Err(e),
            Ok((e0, p2)) => Ok((Expression::RequiredExpression { value: Box::new(e0) }, p2)),
        }
    } else {
        Err(ParseError::UnexpectedToken { at: pos, file: fid, expected: Expected::ExpressionStart })
    }
}

/// Reads a path expression.
pub fn consume_path_expression(toks: &Vec<Token>, pos: usize, fid: FileId) -> (r: Result<
    (Expression, usize),
    ParseError,
>)
    requires
        pos <= toks.len(),
    ensures
        res_m(
            r,
            s_consume_path_expression(toks@, pos as int, fid),
            |v: Expression, g: GExpression| expr_models(v, g),
        ),
        moved(r, pos as int, toks@.len() as int),
    decreases toks@.len() - pos, 7int,
{
    if pos < toks.len() && matches!(toks[pos], Token::Ident(_)) {
        match consume_a_path(toks, pos, fid) {
            Err(e) => Err(e),
            Ok((path, p2)) => {
                let p3 = skip_ws(toks, p2);
                Ok((Expression::PathExpression { value: path }, p3))
            },
        }
    } else {
        Err(ParseError::UnexpectedToken { at: pos, file: fid, expected: Expected::ExpressionStart })
    }
}

/// Reads a switch expression.
pub fn consume_switch_expression(toks: &Vec<Token>, pos: usize, fid: FileId) -> (r: Result<
    (Expression, usize),
    ParseError,
>)
    requires
        pos <= toks.len(),
    ensures
        res_m(
            r,
            s_consume_switch_expression(toks@, pos as int, fid),
            |v: Expression, g: GExpression| expr_models(v, g),
        ),
        moved(r, pos as int, toks@.len() as int),
    decreases toks@.len() - pos, 7int,
{
    if pos < toks.len() && matches!(toks[pos], Token::SwitchKeyword) {
        match consume_an_expression(toks, pos + 1, fid) {
            Err(e) => Err(e),
            Ok((pred, p2)) => {
                let ghost gpred = (match s_consume_an_expression(toks@, pos + 1, fid) {
                    Ok(w) => w.0,
                    Err(_) => arbitrary(),
                });
                match must(toks, p2, fid, Token::LeftCurly) {
                    Err(e) => Err(e),
                    Ok((_, p3)) => {
                        match switch_arms(toks, p3, fid) {
                            Err(e) => Err(e),
                            Ok((arms, p4)) => Ok(
                                (
                                    Expression::SwitchExpression {
                                        predicate: Box::new(pred),
                                        block: SwitchExpressionBlock(arms),
                                    },
                                    p4,
                                ),
                            ),
                        }
                    },
                }
            },
        }
    } else {
        Err(ParseError::UnexpectedToken { at: pos, file: fid, expected: Expected::ExpressionStart })
    }
}

/// Reads switch arms up to the closing brace.
fn switch_arms(toks: &Vec<Token>, pos: usize, fid: FileId) -> (r: Result<
    (Vec<SwitchArm>, usize),
    ParseError,
>)
    requires
        pos <= toks.len(),
    ensures
        res_m(
            r,
            s_switch_arms(toks@, pos as int, fid),
            |v: Vec<SwitchArm>, g: Seq<GSwitchArm>| v@.len() == g.len() && (forall|i: int|
                0 <= i < g.len() ==> arm_models(v@[i], #[trigger] g[i])),
        ),
        stays(r, pos as int, toks@.len() as int),
    decreases toks@.len() - pos, 10int,
{
    let p = skip_ws(toks, pos);
    if p < toks.len() && matches!(toks[p], Token::RightCurly) {
        let out: Vec<SwitchArm> = Vec::new();
        proof {
            assert(out@.len() == Seq::<GSwitchArm>::empty().len());
        }
        Ok((out, p + 1))
    } else {
        match consume_switch_arm(toks, p, fid) {
            Err(e) => Err(e),
            Ok((arm, p2)) => {
                let ghost garm = (match s_consume_switch_arm(toks@, p as int, fid) {
                    Ok(w) => w.0,
                    Err(_) => arbitrary(),
                });
                let p3 = skip_ws(toks, p2);
                let next = if p3 < toks.len() && matches!(toks[p3], Token::Comma) {
                    switch_arms(toks, p3 + 1, fid)
                } else {
                    switch_arms(toks, p3, fid)
                };
                match next {
                    Err(e) => Err(e),
                    Ok((rest, p4)) => {
                        let ghost grest = (if p3 < toks@.len() && toks@[p3 as int] == Token::Comma {
                            match s_switch_arms(toks@, p3 + 1, fid) {
                                Ok(w) => w.0,
                                Err(_) => arbitrary(),
                            }
                        } else {
                            match s_switch_arms(toks@, p3 as int, fid) {
                                Ok(w) => w.0,
                                Err(_) => arbitrary(),
                            }
                        });
                        let out = prepend(arm, rest);
                        proof {
                            let gs = seq![garm] + grest;
                            assert forall|i: int|
                                0 <= i < gs.len() implies arm_models(out@[i], #[trigger] gs[i]) by {
                                if i > 0 {
                                    assert(gs[i] == grest[i - 1]);
                                    assert(out@[i] == rest@[i - 1]);
                                }
                            }
                        }
                        Ok((out, p4))
                    },
                }
            },
        }
    }
}

/// Reads one `lhs -> rhs` switch arm.
fn consume_switch_arm(toks: &Vec<Token>, pos: usize, fid: FileId) -> (r: Result<
    (SwitchArm, usize),
    ParseError,
>)
    requires
        pos <= toks.len(),
    ensures
        res_m(
            r,
            s_consume_switch_arm(toks@, pos as int, fid),
            |v: SwitchArm, g: GSwitchArm| arm_models(v, g),
        ),
        moved(r, pos as int, toks@.len() as int),
    decreases toks@.len() - pos, 9int,
{
    match consume_an_expression(toks, pos, fid) {
        Err(e) => Err(e),
        Ok((lhs, p2)) => {
            match must(toks, p2, fid, Token::ThinArrow) {
                Err(e) => Err(e),
                Ok((_, p3)) => {
                    match consume_an_expression(toks, p3, fid) {
                        Err(e) => Err(e),
                        Ok((rhs, p4)) => Ok(
                            (SwitchArm { lhs: Box::new(lhs), rhs: Box::new(rhs) }, p4),
                        ),
                    }
                },
            }
        },
    }
}


// ---------------------------------------------------------------------------
// Function parameters, statement blocks, components and type bodies.
// ---------------------------------------------------------------------------

/// `( name : path (, name : path)* ,? )`.
pub open spec fn s_consume_function_parameters(toks: Seq<Token>, pos: int, fid: FileId) -> Result<
    (GParams, int),
    GParseError,
>
    decreases toks.len() - pos, 14int,
{
    match s_must(toks, pos, fid, Token::LeftParenthesis) {
        Err(e) => Err(e),
        Ok((_, p2)) => {
            if !(pos <= p2 <= toks.len()) {
                Err(g_stuck(fid))
            } else {
                s_fn_params(toks, p2, fid)
            }
        },
    }
}

/// The parameters after the opening parenthesis.
pub open spec fn s_fn_params(toks: Seq<Token>, pos: int, fid: FileId) -> Result<
    (GParams, int),
    GParseError,
>
    decreases toks.len() - pos, 14int,
{
    let p = s_skip_ws(toks, pos);
    if !within(pos, p, toks.len() as int) {
        Err(g_stuck(fid))
    } else if p < toks.len() && toks[p] == Token::RightParenthesis {
        Ok((Seq::empty(), p + 1))
    } else {
        match s_consume_function_parameter(toks, p, fid) {
            Err(e) => Err(e),
            Ok((prm, p2)) => {
                if !(p < p2 <= toks.len()) {
                    Err(g_stuck(fid))
                } else {
                    let p3 = s_skip_ws(toks, p2);
                    if !within(p2, p3, toks.len() as int) {
                        Err(g_stuck(fid))
                    } else if p3 < toks.len() && toks[p3] == Token::Comma {
                        match s_fn_params(toks, p3 + 1, fid) {
                            Err(e) => Err(e),
                            Ok((rest, p4)) => Ok((seq![prm] + rest, p4)),
                        }
                    } else {
                        match s_fn_params(toks, p3, fid) {
                            Err(e) => Err(e),
                            Ok((rest, p4)) => Ok((seq![prm] + rest, p4)),
                        }
                    }
                }
            },
        }
    }
}

/// One `name : path` parameter.
pub open spec fn s_consume_function_parameter(toks: Seq<Token>, pos: int, fid: FileId) -> Result<
    (GParam, int),
    GParseError,
>
    decreases toks.len() - pos, 13int,
{
    match s_must_ident(toks, pos, fid) {
        Err(e) => Err(e),
        Ok((name, p2)) => {
            if !(pos <= p2 <= toks.len()) {
                Err(g_stuck(fid))
            } else {
                match s_must(toks, p2, fid, Token::Colon) {
                    Err(e) => Err(e),
                    Ok((_, p3)) => {
                        if !(p2 <= p3 <= toks.len()) {
                            Err(g_stuck(fid))
                        } else {
                            let p4 = s_skip_ws(toks, p3);
                            if !within(p3, p4, toks.len() as int) {
                                Err(g_stuck(fid))
                            } else {
                                match s_consume_a_path(toks, p4, fid) {
                                    Err(e) => Err(e),
                                    Ok((ty, p5)) => Ok((GParam { name, arg_type: ty }, p5)),
                                }
                            }
                        }
                    },
                }
            }
        },
    }
}

/// `{ <statement>* }`.
pub open spec fn s_consume_function_block(toks: Seq<Token>, pos: int, fid: FileId, src: Seq<u8>) -> Result<
    (GBlock, int),
    GParseError,
>
    decreases toks.len() - pos, 2int,
{
    match s_must(toks, pos, fid, Token::LeftCurly) {
        Err(e) => Err(e),
        Ok((_, p2)) => {
            if !(pos < p2 <= toks.len()) {
                Err(g_stuck(fid))
            } else {
                s_block_stmts(toks, p2, fid, src)
            }
        },
    }
}

/// The statements of a block, up to the closing brace.
pub open spec fn s_block_stmts(toks: Seq<Token>, pos: int, fid: FileId, src: Seq<u8>) -> Result<
    (GBlock, int),
    GParseError,
>
    decreases toks.len() - pos, 12int,
{
    let p = s_skip_ws(toks, pos);
    if !within(pos, p, toks.len() as int) {
        Err(g_stuck(fid))
    } else if p < toks.len() && toks[p] == Token::RightCurly {
        Ok((Seq::empty(), p + 1))
    } else if p < toks.len() {
        match s_consume_a_block_statement(toks, p, fid, src) {
            Err(e) => Err(e),
            Ok((st, p2)) => {
                if !(p < p2 <= toks.len()) {
                    Err(g_stuck(fid))
                } else {
                    match s_block_stmts(toks, p2, fid, src) {
                        Err(e) => Err(e),
                        Ok((rest, p3)) => Ok((seq![st] + rest, p3)),
                    }
                }
            },
        }
    } else {
        Err(GParseError::UnexpectedEof { file: fid, expected: Expected::Statement })
    }
}

/// One block statement, chosen on the first significant token.
pub open spec fn s_consume_a_block_statement(toks: Seq<Token>, pos: int, fid: FileId, src: Seq<u8>) -> Result<
    (GStmt, int),
    GParseError,
>
    decreases toks.len() - pos, 11int,
{
    if 0 <= pos < toks.len() {
        match toks[pos] {
            Token::MutableKeyword => s_consume_mutable_variable_declaration(toks, pos, fid),
            Token::ImmutableKeyword => s_consume_immutable_variable_declaration(toks, pos, fid),
            Token::ExportKeyword => s_consume_export_declaration(toks, pos, fid, src),
            Token::RenderKeyword => s_consume_render_block(toks, pos, fid, src),
            _ => s_consume_expression_statement(toks, pos, fid),
        }
    } else {
        Err(GParseError::UnexpectedEof { file: fid, expected: Expected::Statement })
    }
}

/// `name ( : path )? ( = expr )?` after a variable keyword; ends at `;`.
pub open spec fn s_var_decl_tail(toks: Seq<Token>, pos: int, fid: FileId) -> Result<
    ((Span, Option<GPath>, Option<GExpression>), int),
    GParseError,
>
    decreases toks.len() - pos, 10int,
{
    match s_must_ident(toks, pos, fid) {
        Err(e) => Err(e),
        Ok((name, p2)) => {
            if !(pos <= p2 <= toks.len()) {
                Err(g_stuck(fid))
            } else {
                let p3 = s_skip_ws(toks, p2);
                if !within(p2, p3, toks.len() as int) {
                    Err(g_stuck(fid))
                } else {
                    let with_type = (if p3 < toks.len() && toks[p3] == Token::Colon {
                        match s_consume_a_path(toks, s_skip_ws(toks, p3 + 1), fid) {
                            Err(e) => Err(e),
                            Ok((ty, p4)) => {
                                if !(p3 < p4 <= toks.len() && s_skip_ws(toks, p3 + 1) <= p4) {
                                    Err(g_stuck(fid))
                                } else {
                                    Ok((Some(ty), p4))
                                }
                            },
                        }
                    } else {
                        Ok((None::<GPath>, p3))
                    });
                    match with_type {
                        Err(e) => Err(e),
                        Ok((ty, p4)) => {
                            if !(p3 <= p4 <= toks.len()) {
                                Err(g_stuck(fid))
                            } else {
                                let p5 = s_skip_ws(toks, p4);
                                if !within(p4, p5, toks.len() as int) {
                                    Err(g_stuck(fid))
                                } else if p5 < toks.len() && toks[p5] == Token::EqualSign {
                                    match s_consume_an_expression(toks, p5 + 1, fid) {
                                        Err(e) => Err(e),
                                        Ok((ex, p6)) => {
                                            match s_consume_a_semicolon(toks, p6, fid) {
                                                Err(e) => Err(e),
                                                Ok((_, p7)) => Ok(((name, ty, Some(ex)), p7)),
                                            }
                                        },
                                    }
                                } else {
                                    match s_consume_a_semicolon(toks, p5, fid) {
                                        Err(e) => Err(e),
                                        Ok((_, p7)) => Ok(((name, ty, None), p7)),
                                    }
                                }
                            }
                        },
                    }
                }
            }
        },
    }
}

/// `mutable name ( : path )? ( = expr )? ;`.
pub open spec fn s_consume_mutable_variable_declaration(toks: Seq<Token>, pos: int, fid: FileId) -> Result<
    (GStmt, int),
    GParseError,
>
    decreases toks.len() - pos, 10int,
{
    if 0 <= pos < toks.len() && toks[pos] == Token::MutableKeyword {
        match s_var_decl_tail(toks, pos + 1, fid) {
            Err(e) => Err(e),
            Ok(((name, ty, ex), p2)) => Ok(
                (
                    GStmt::MutableVariableDeclaration {
                        variablename: name,
                        variabletype: ty,
                        declarationexpression: ex,
                    },
                    p2,
                ),
            ),
        }
    } else {
        Err(GParseError::UnexpectedToken { at: pos as usize, file: fid, expected: Expected::Statement })
    }
}

/// `immutable name ( : path )? ( = expr )? ;`.
pub open spec fn s_consume_immutable_variable_declaration(toks: Seq<Token>, pos: int, fid: FileId) -> Result<
    (GStmt, int),
    GParseError,
>
    decreases toks.len() - pos, 10int,
{
    if 0 <= pos < toks.len() && toks[pos] == Token::ImmutableKeyword {
        match s_var_decl_tail(toks, pos + 1, fid) {
            Err(e) => Err(e),
            Ok(((name, ty, ex), p2)) => Ok(
                (
                    GStmt::ImmutableVariableDeclaration {
                        variablename: name,
                        variabletype: ty,
                        declarationexpression: ex,
                    },
                    p2,
                ),
            ),
        }
    } else {
        Err(GParseError::UnexpectedToken { at: pos as usize, file: fid, expected: Expected::Statement })
    }
}

pub open spec fn lit_col() -> Seq<u8> {
    seq!['c' as u8, 'o' as u8, 'l' as u8]
}

pub open spec fn lit_pos() -> Seq<u8> {
    seq!['p' as u8, 'o' as u8, 's' as u8]
}

/// `export ( #col | #pos | name ) ( : path )? = expr ;`. Only the two
/// built-in channel names may follow `#`.
pub open spec fn s_consume_export_declaration(toks: Seq<Token>, pos: int, fid: FileId, src: Seq<u8>) -> Result<
    (GStmt, int),
    GParseError,
>
    decreases toks.len() - pos, 10int,
{
    if 0 <= pos < toks.len() && toks[pos] == Token::ExportKeyword {
        let p = s_skip_ws(toks, pos + 1);
        if !within(pos + 1, p, toks.len() as int) {
            Err(g_stuck(fid))
        } else if p < toks.len() && toks[p] == Token::Hash {
            match s_must_ident(toks, p + 1, fid) {
                Err(e) => Err(e),
                Ok((sp, p2)) => {
                    if !(p < p2 <= toks.len()) {
                        Err(g_stuck(fid))
                    } else if !(sp.begin <= sp.end <= src.len()) {
                        Err(GParseError::UnexpectedToken { at: p as usize, file: fid, expected: Expected::ExportName })
                    } else {
                        let w = src.subrange(sp.begin as int, sp.end as int);
                        if w == lit_col() {
                            s_export_tail(toks, p2, fid, Exported::ColorBuiltin)
                        } else if w == lit_pos() {
                            s_export_tail(toks, p2, fid, Exported::PositionBuiltin)
                        } else {
                            Err(GParseError::UnexpectedToken { at: p as usize, file: fid, expected: Expected::ExportName })
                        }
                    }
                },
            }
        } else if p < toks.len() && toks[p] matches Token::Ident(_) {
            s_export_tail(toks, p + 1, fid, Exported::Custom(toks[p]->Ident_0))
        } else if p < toks.len() {
            Err(GParseError::UnexpectedToken { at: p as usize, file: fid, expected: Expected::ExportName })
        } else {
            Err(GParseError::UnexpectedEof { file: fid, expected: Expected::ExportName })
        }
    } else {
        Err(GParseError::UnexpectedToken { at: pos as usize, file: fid, expected: Expected::Statement })
    }
}

/// The `( : path )? = expr ;` tail of an export statement.
pub open spec fn s_export_tail(toks: Seq<Token>, pos: int, fid: FileId, exporting: Exported) -> Result<
    (GStmt, int),
    GParseError,
>
    decreases toks.len() - pos, 9int,
{
    let p = s_skip_ws(toks, pos);
    if !within(pos, p, toks.len() as int) {
        Err(g_stuck(fid))
    } else if p < toks.len() && toks[p] == Token::EqualSign {
        match s_consume_an_expression(toks, p + 1, fid) {
            Err(e) => Err(e),
            Ok((ex, p2)) => {
                match s_consume_a_semicolon(toks, p2, fid) {
                    Err(e) => Err(e),
                    Ok((_, p3)) => Ok(
                        (
                            GStmt::ExportDeclaration {
                                exporting,
                                exporttype: None,
                                expression: ex,
                            },
                            p3,
                        ),
                    ),
                }
            },
        }
    } else if p < toks.len() && toks[p] == Token::Colon {
        let p2 = s_skip_ws(toks, p + 1);
        if !within(p + 1, p2, toks.len() as int) {
            Err(g_stuck(fid))
        } else {
            match s_consume_a_path(toks, p2, fid) {
                Err(e) => Err(e),
                Ok((ty, p3)) => {
                    if !(p2 <= p3 <= toks.len()) {
                        Err(g_stuck(fid))
                    } else {
                        match s_must(toks, p3, fid, Token::EqualSign) {
                            Err(e) => Err(e),
                            Ok((_, p4)) => {
                                if !(p3 <= p4 <= toks.len()) {
                                    Err(g_stuck(fid))
                                } else {
                                    match s_consume_an_expression(toks, p4, fid) {
                                        Err(e) => Err(e),
                                        Ok((ex, p5)) => {
                                            match s_consume_a_semicolon(toks, p5, fid) {
                                                Err(e) => Err(e),
                                                Ok((_, p6)) => Ok(
                                                    (
                                                        GStmt::ExportDeclaration {
                                                            exporting,
                                                            exporttype: Some(ty),
                                                            expression: ex,
                                                        },
                                                        p6,
                                                    ),
                                                ),
                                            }
                                        },
                                    }
                                }
                            },
                        }
                    }
                },
            }
        }
    } else if p < toks.len() {
        Err(GParseError::UnexpectedToken { at: p as usize, file: fid, expected: Expected::AToken(Token::EqualSign) })
    } else {
        Err(GParseError::UnexpectedEof { file: fid, expected: Expected::AToken(Token::EqualSign) })
    }
}

/// `render { ... }` inside a function block.
pub open spec fn s_consume_render_block(toks: Seq<Token>, pos: int, fid: FileId, src: Seq<u8>) -> Result<
    (GStmt, int),
    GParseError,
>
    decreases toks.len() - pos, 10int,
{
    if 0 <= pos < toks.len() && toks[pos] == Token::RenderKeyword {
        match s_consume_function_block(toks, pos + 1, fid, src) {
            Err(e) => Err(e),
            Ok((b, p2)) => Ok((GStmt::RenderBlock(b), p2)),
        }
    } else {
        Err(GParseError::UnexpectedToken { at: pos as usize, file: fid, expected: Expected::Statement })
    }
}

/// An expression statement; a trailing `;` is optional and marks the
/// statement hidden.
pub open spec fn s_consume_expression_statement(toks: Seq<Token>, pos: int, fid: FileId) -> Result<
    (GStmt, int),
    GParseError,
>
    decreases toks.len() - pos, 10int,
{
    match s_consume_an_expression(toks, pos, fid) {
        Err(e) => Err(e),
        Ok((ex, p2)) => {
            if !(pos < p2 <= toks.len()) {
                Err(g_stuck(fid))
            } else {
                let p3 = s_skip_ws(toks, p2);
                if !within(p2, p3, toks.len() as int) {
                    Err(g_stuck(fid))
                } else if p3 < toks.len() && toks[p3] == Token::Semicolon {
                    Ok((GStmt::ExpressionStatement { hidden: true, expression: ex }, p3 + 1))
                } else {
                    Ok((GStmt::ExpressionStatement { hidden: false, expression: ex }, p2))
                }
            }
        },
    }
}

/// `{ <component statement>* }`.
pub open spec fn s_consume_component_declaration_block(
    toks: Seq<Token>,
    pos: int,
    fid: FileId,
    src: Seq<u8>,
) -> Result<(Seq<GCompStmt>, int), GParseError>
    decreases toks.len() - pos, 2int,
{
    match s_must(toks, pos, fid, Token::LeftCurly) {
        Err(e) => Err(e),
        Ok((_, p2)) => {
            if !(pos < p2 <= toks.len()) {
                Err(g_stuck(fid))
            } else {
                s_comp_stmts(toks, p2, fid, src)
            }
        },
    }
}

/// Component statements, up to the closing brace.
pub open spec fn s_comp_stmts(toks: Seq<Token>, pos: int, fid: FileId, src: Seq<u8>) -> Result<
    (Seq<GCompStmt>, int),
    GParseError,
>
    decreases toks.len() - pos, 12int,
{
    let p = s_skip_ws(toks, pos);
    if !within(pos, p, toks.len() as int) {
        Err(g_stuck(fid))
    } else if p < toks.len() && toks[p] == Token::RightCurly {
        Ok((Seq::empty(), p + 1))
    } else if p < toks.len() {
        match s_consume_component_declaration_statement(toks, p, fid, src) {
            Err(e) => Err(e),
            Ok((st, p2)) => {
                if !(p < p2 <= toks.len()) {
                    Err(g_stuck(fid))
                } else {
                    match s_comp_stmts(toks, p2, fid, src) {
                        Err(e) => Err(e),
                        Ok((rest, p3)) => Ok((seq![st] + rest, p3)),
                    }
                }
            },
        }
    } else {
        Err(GParseError::UnexpectedEof { file: fid, expected: Expected::ComponentStatement })
    }
}

/// One component statement: a final variable, a render block, or a public
/// constructor expression.
pub open spec fn s_consume_component_declaration_statement(
    toks: Seq<Token>,
    pos: int,
    fid: FileId,
    src: Seq<u8>,
) -> Result<(GCompStmt, int), GParseError>
    decreases toks.len() - pos, 11int,
{
    if 0 <= pos < toks.len() {
        match toks[pos] {
            Token::FinalKeyword => s_consume_final_variable_declaration(toks, pos + 1, fid),
            Token::RenderKeyword => s_consume_component_render_block(toks, pos + 1, fid, src),
            Token::PublicKeyword => s_consume_public_constructor(toks, pos + 1, fid),
            _ => Err(GParseError::UnexpectedToken { at: pos as usize, file: fid, expected: Expected::ComponentStatement }),
        }
    } else {
        Err(GParseError::UnexpectedEof { file: fid, expected: Expected::ComponentStatement })
    }
}

/// `final name ( : path )? ( = expr )? ;`, the keyword already consumed.
pub open spec fn s_consume_final_variable_declaration(toks: Seq<Token>, pos: int, fid: FileId) -> Result<
    (GCompStmt, int),
    GParseError,
>
    decreases toks.len() - pos, 10int,
{
    match s_var_decl_tail(toks, pos, fid) {
        Err(e) => Err(e),
        Ok(((name, ty, ex), p2)) => Ok(
            (
                GCompStmt::FinalVariableDeclaration {
                    variablename: name,
                    variabletype: ty,
                    declarationexpression: ex,
                },
                p2,
            ),
        ),
    }
}

/// `public expr ;` inside a component, the keyword already consumed.
pub open spec fn s_consume_public_constructor(toks: Seq<Token>, pos: int, fid: FileId) -> Result<
    (GCompStmt, int),
    GParseError,
>
    decreases toks.len() - pos, 10int,
{
    match s_consume_an_expression(toks, pos, fid) {
        Err(e) => Err(e),
        Ok((ex, p2)) => {
            match s_consume_a_semicolon(toks, p2, fid) {
                Err(e) => Err(e),
                Ok((_, p3)) => Ok((GCompStmt::PublicConstructor { expression: ex }, p3)),
            }
        },
    }
}

/// `{ vertices <block> fragments <block> }`, the `render` keyword already
/// consumed.
pub open spec fn s_consume_component_render_block(toks: Seq<Token>, pos: int, fid: FileId, src: Seq<u8>) -> Result<
    (GCompStmt, int),
    GParseError,
>
    decreases toks.len() - pos, 10int,
{
    match s_must(toks, pos, fid, Token::LeftCurly) {
        Err(e) => Err(e),
        Ok((_, p2)) => {
            if !(pos < p2 <= toks.len()) {
                Err(g_stuck(fid))
            } else {
                match s_must(toks, p2, fid, Token::VerticesKeyword) {
                    Err(e) => Err(e),
                    Ok((_, p3)) => {
                        if !(p2 <= p3 <= toks.len()) {
                            Err(g_stuck(fid))
                        } else {
                            match s_consume_function_block(toks, p3, fid, src) {
                                Err(e) => Err(e),
                                Ok((vb, p4)) => {
                                    if !(p3 <= p4 <= toks.len()) {
                                        Err(g_stuck(fid))
                                    } else {
                                        match s_must(toks, p4, fid, Token::FragmentsKeyword) {
                                            Err(e) => Err(e),
                                            Ok((_, p5)) => {
                                                if !(p4 <= p5 <= toks.len()) {
                                                    Err(g_stuck(fid))
                                                } else {
                                                    match s_consume_function_block(toks, p5, fid, src) {
                                                        Err(e) => Err(e),
                                                        Ok((fb, p6)) => {
                                                            match s_must(toks, p6, fid, Token::RightCurly) {
                                                                Err(e) => Err(e),
                                                                Ok((_, p7)) => Ok(
                                                                    (
                                                                        GCompStmt::RenderBlockDeclaration {
                                                                            vertices: vb,
                                                                            fragments: fb,
                                                                        },
                                                                        p7,
                                                                    ),
                                                                ),
                                                            }
                                                        },
                                                    }
                                                }
                                            },
                                        }
                                    }
                                },
                            }
                        }
                    },
                }
            }
        },
    }
}

/// The body of a `type` declaration: a name, a union, or a field map.
pub open spec fn s_consume_subtype(toks: Seq<Token>, pos: int, fid: FileId) -> Result<
    (GSubType, int),
    GParseError,
>
    decreases toks.len() - pos, 17int,
{
    let p = s_skip_ws(toks, pos);
    if !within(pos, p, toks.len() as int) {
        Err(g_stuck(fid))
    } else if p < toks.len() {
        match toks[p] {
            Token::Ident(_) => s_consume_named_subtype(toks, p, fid),
            Token::LeftParenthesis => s_consume_union_subtype(toks, p, fid),
            Token::LeftCurly => s_consume_map_subtype(toks, p, fid),
            _ => Err(GParseError::UnexpectedToken { at: p as usize, file: fid, expected: Expected::Subtype }),
        }
    } else {
        Err(GParseError::UnexpectedEof { file: fid, expected: Expected::Subtype })
    }
}

/// `name` or `name : body`.
pub open spec fn s_consume_named_subtype(toks: Seq<Token>, pos: int, fid: FileId) -> Result<
    (GSubType, int),
    GParseError,
>
    decreases toks.len() - pos, 16int,
{
    match s_must_ident(toks, pos, fid) {
        Err(e) => Err(e),
        Ok((name, p2)) => {
            if !(pos <= p2 <= toks.len()) {
                Err(g_stuck(fid))
            } else {
                let p3 = s_skip_ws(toks, p2);
                if !within(p2, p3, toks.len() as int) {
                    Err(g_stuck(fid))
                } else if p3 < toks.len() && (toks[p3] == Token::Semicolon || toks[p3]
                    == Token::Pipe || toks[p3] == Token::RightParenthesis || toks[p3]
                    == Token::Comma || toks[p3] == Token::RightCurly) {
                    Ok((GSubType::Name(name), p3))
                } else if p3 < toks.len() && toks[p3] == Token::Colon {
                    match s_consume_subtype(toks, p3 + 1, fid) {
                        Err(e) => Err(e),
                        Ok((b, p4)) => Ok((GSubType::Named(name, Box::new(b)), p4)),
                    }
                } else if p3 < toks.len() {
                    Err(GParseError::UnexpectedToken { at: p3 as usize, file: fid, expected: Expected::Subtype })
                } else {
                    Err(GParseError::UnexpectedEof { file: fid, expected: Expected::Subtype })
                }
            }
        },
    }
}

/// `( body (| body)* )`.
pub open spec fn s_consume_union_subtype(toks: Seq<Token>, pos: int, fid: FileId) -> Result<
    (GSubType, int),
    GParseError,
>
    decreases toks.len() - pos, 16int,
{
    if 0 <= pos < toks.len() && toks[pos] == Token::LeftParenthesis {
        match s_union_items(toks, pos + 1, fid) {
            Err(e) => Err(e),
            Ok((items, p2)) => Ok((GSubType::Union(items), p2)),
        }
    } else {
        Err(GParseError::UnexpectedToken { at: pos as usize, file: fid, expected: Expected::Subtype })
    }
}

/// The members of a union body, up to the closing parenthesis.
pub open spec fn s_union_items(toks: Seq<Token>, pos: int, fid: FileId) -> Result<
    (Seq<GSubType>, int),
    GParseError,
>
    decreases toks.len() - pos, 18int,
{
    let p = s_skip_ws(toks, pos);
    if !within(pos, p, toks.len() as int) {
        Err(g_stuck(fid))
    } else if p < toks.len() && toks[p] == Token::RightParenthesis {
        Ok((Seq::empty(), p + 1))
    } else if p < toks.len() && (toks[p] matches Token::Ident(_) || toks[p]
        == Token::LeftParenthesis || toks[p] == Token::LeftCurly) {
        match s_consume_subtype(toks, p, fid) {
            Err(e) => Err(e),
            Ok((st, p2)) => {
                if !(p < p2 <= toks.len()) {
                    Err(g_stuck(fid))
                } else {
                    let p3 = s_skip_ws(toks, p2);
                    if !within(p2, p3, toks.len() as int) {
                        Err(g_stuck(fid))
                    } else if p3 < toks.len() && toks[p3] == Token::Pipe {
                        match s_union_items(toks, p3 + 1, fid) {
                            Err(e) => Err(e),
                            Ok((rest, p4)) => Ok((seq![st] + rest, p4)),
                        }
                    } else {
                        match s_union_items(toks, p3, fid) {
                            Err(e) => Err(e),
                            Ok((rest, p4)) => Ok((seq![st] + rest, p4)),
                        }
                    }
                }
            },
        }
    } else if p < toks.len() {
        Err(GParseError::UnexpectedToken { at: p as usize, file: fid, expected: Expected::Subtype })
    } else {
        Err(GParseError::UnexpectedEof { file: fid, expected: Expected::Subtype })
    }
}

/// `{ name : body (, name : body)* }`.
pub open spec fn s_consume_map_subtype(toks: Seq<Token>, pos: int, fid: FileId) -> Result<
    (GSubType, int),
    GParseError,
>
    decreases toks.len() - pos, 16int,
{
    if 0 <= pos < toks.len() && toks[pos] == Token::LeftCurly {
        match s_map_items(toks, pos + 1, fid) {
            Err(e) => Err(e),
            Ok((items, p2)) => Ok((GSubType::Mapping(items), p2)),
        }
    } else {
        Err(GParseError::UnexpectedToken { at: pos as usize, file: fid, expected: Expected::Subtype })
    }
}

/// The fields of a map body, in source order, up to the closing brace.
pub open spec fn s_map_items(toks: Seq<Token>, pos: int, fid: FileId) -> Result<
    (Seq<(Span, GSubType)>, int),
    GParseError,
>
    decreases toks.len() - pos, 18int,
{
    let p = s_skip_ws(toks, pos);
    if !within(pos, p, toks.len() as int) {
        Err(g_stuck(fid))
    } else if p < toks.len() && toks[p] == Token::RightCurly {
        Ok((Seq::empty(), p + 1))
    } else if p < toks.len() && toks[p] matches Token::Ident(_) {
        let name = toks[p]->Ident_0;
        match s_must(toks, p + 1, fid, Token::Colon) {
            Err(e) => Err(e),
            Ok((_, p2)) => {
                if !(p < p2 <= toks.len()) {
                    Err(g_stuck(fid))
                } else {
                    match s_consume_subtype(toks, p2, fid) {
                        Err(e) => Err(e),
                        Ok((st, p3)) => {
                            if !(p2 <= p3 <= toks.len()) {
                                Err(g_stuck(fid))
                            } else {
                                let p4 = s_skip_ws(toks, p3);
                                if !within(p3, p4, toks.len() as int) {
                                    Err(g_stuck(fid))
                                } else if p4 < toks.len() && toks[p4] == Token::Comma {
                                    match s_map_items(toks, p4 + 1, fid) {
                                        Err(e) => Err(e),
                                        Ok((rest, p5)) => Ok((seq![(name, st)] + rest, p5)),
                                    }
                                } else {
                                    match s_map_items(toks, p4, fid) {
                                        Err(e) => Err(e),
                                        Ok((rest, p5)) => Ok((seq![(name, st)] + rest, p5)),
                                    }
                                }
                            }
                        },
                    }
                }
            },
        }
    } else if p < toks.len() {
        Err(GParseError::UnexpectedToken { at: p as usize, file: fid, expected: Expected::Ident })
    } else {
        Err(GParseError::UnexpectedEof { file: fid, expected: Expected::Ident })
    }
}


/// Reads a parenthesised parameter list.
pub fn consume_function_parameters(toks: &Vec<Token>, pos: usize, fid: FileId) -> (r: Result<
    (FunctionDeclarationParameters, usize),
    ParseError,
>)
    requires
        pos <= toks.len(),
    ensures
        res_m(
            r,
            s_consume_function_parameters(toks@, pos as int, fid),
            |v: FunctionDeclarationParameters, g: GParams| params_models(v, g),
        ),
        moved(r, pos as int, toks@.len() as int),
    decreases toks@.len() - pos, 14int,
{
    match must(toks, pos, fid, Token::LeftParenthesis) {
        Err(e) => Err(e),
        Ok((_, p2)) => fn_params(toks, p2, fid),
    }
}

/// Reads parameters up to the closing parenthesis.
fn fn_params(toks: &Vec<Token>, pos: usize, fid: FileId) -> (r: Result<
    (FunctionDeclarationParameters, usize),
    ParseError,
>)
    requires
        pos <= toks.len(),
    ensures
        res_m(
            r,
            s_fn_params(toks@, pos as int, fid),
            |v: FunctionDeclarationParameters, g: GParams| params_models(v, g),
        ),
        stays(r, pos as int, toks@.len() as int),
    decreases toks@.len() - pos, 14int,
{
    let p = skip_ws(toks, pos);
    if p < toks.len() && matches!(toks[p], Token::RightParenthesis) {
        let out = FunctionDeclarationParameters::new();
        proof {
            assert(params_models(out, Seq::<GParam>::empty()));
        }
        Ok((out, p + 1))
    } else {
        match consume_function_parameter(toks, p, fid) {
            Err(e) => Err(e),
            Ok((prm, p2)) => {
                let ghost gprm = (match s_consume_function_parameter(toks@, p as int, fid) {
                    Ok(w) => w.0,
                    Err(_) => arbitrary(),
                });
                let p3 = skip_ws(toks, p2);
                let next = if p3 < toks.len() && matches!(toks[p3], Token::Comma) {
                    fn_params(toks, p3 + 1, fid)
                } else {
                    fn_params(toks, p3, fid)
                };
                match next {
                    Err(e) => Err(e),
                    Ok((rest, p4)) => {
                        let ghost grest = (if p3 < toks@.len() && toks@[p3 as int] == Token::Comma {
                            match s_fn_params(toks@, p3 + 1, fid) {
                                Ok(w) => w.0,
                                Err(_) => arbitrary(),
                            }
                        } else {
                            match s_fn_params(toks@, p3 as int, fid) {
                                Ok(w) => w.0,
                                Err(_) => arbitrary(),
                            }
                        });
                        let out = FunctionDeclarationParameters(prepend(prm, rest.0));
                        proof {
                            let gs = seq![gprm] + grest;
                            assert forall|i: int|
                                0 <= i < gs.len() implies {
                                &&& out.0@[i].name == (#[trigger] gs[i]).name
                                &&& path_models(out.0@[i].arg_type, gs[i].arg_type)
                            } by {
                                if i > 0 {
                                    assert(gs[i] == grest[i - 1]);
                                    assert(out.0@[i] == rest.0@[i - 1]);
                                }
                            }
                        }
                        Ok((out, p4))
                    },
                }
            },
        }
    }
}

/// Reads one `name : path` parameter.
pub fn consume_function_parameter(toks: &Vec<Token>, pos: usize, fid: FileId) -> (r: Result<
    (FunctionDeclarationParameter, usize),
    ParseError,
>)
    requires
        pos <= toks.len(),
    ensures
        res_m(
            r,
            s_consume_function_parameter(toks@, pos as int, fid),
            |v: FunctionDeclarationParameter, g: GParam| v.name == g.name && path_models(
                v.arg_type,
                g.arg_type,
            ),
        ),
        moved(r, pos as int, toks@.len() as int),
    decreases toks@.len() - pos, 13int,
{
    match must_ident(toks, pos, fid) {
        Err(e) => Err(e),
        Ok((name, p2)) => {
            match must(toks, p2, fid, Token::Colon) {
                Err(e) => Err(e),
                Ok((_, p3)) => {
                    let p4 = skip_ws(toks, p3);
                    match consume_a_path(toks, p4, fid) {
                        Err(e) => Err(e),
                        Ok((ty, p5)) => Ok((FunctionDeclarationParameter { name, arg_type: ty }, p5)),
                    }
                },
            }
        },
    }
}

/// Reads a braced statement block.
pub fn consume_function_block(toks: &Vec<Token>, pos: usize, fid: FileId, src: &Vec<u8>) -> (r:
    Result<(Block, usize), ParseError>)
    requires
        pos <= toks.len(),
    ensures
        res_m(
            r,
            s_consume_function_block(toks@, pos as int, fid, src@),
            |v: Block, g: GBlock| block_models(v, g),
        ),
        moved(r, pos as int, toks@.len() as int),
    decreases toks@.len() - pos, 2int,
{
    match must(toks, pos, fid, Token::LeftCurly) {
        Err(e) => Err(e),
        Ok((_, p2)) => {
            match block_stmts(toks, p2, fid, src) {
                Err(e) => Err(e),
                Ok((b, p3)) => Ok((Block(b), p3)),
            }
        },
    }
}

/// Reads statements up to the closing brace.
fn block_stmts(toks: &Vec<Token>, pos: usize, fid: FileId, src: &Vec<u8>) -> (r: Result<
    (Vec<FunctionBlockStatements>, usize),
    ParseError,
>)
    requires
        pos <= toks.len(),
    ensures
        res_m(
            r,
            s_block_stmts(toks@, pos as int, fid, src@),
            |v: Vec<FunctionBlockStatements>, g: GBlock| block_models(Block(v), g),
        ),
        stays(r, pos as int, toks@.len() as int),
    decreases toks@.len() - pos, 12int,
{
    let p = skip_ws(toks, pos);
    if p < toks.len() && matches!(toks[p], Token::RightCurly) {
        let out: Vec<FunctionBlockStatements> = Vec::new();
        proof {
            assert(block_models(Block(out), Seq::<GStmt>::empty()));
        }
        Ok((out, p + 1))
    } else if p < toks.len() {
        match consume_a_block_statement(toks, p, fid, src) {
            Err(e) => Err(e),
            Ok((st, p2)) => {
                let ghost gst = (match s_consume_a_block_statement(toks@, p as int, fid, src@) {
                    Ok(w) => w.0,
                    Err(_) => arbitrary(),
                });
                match block_stmts(toks, p2, fid, src) {
                    Err(e) => Err(e),
                    Ok((rest, p3)) => {
                        let ghost grest = (match s_block_stmts(toks@, p2 as int, fid, src@) {
                            Ok(w) => w.0,
                            Err(_) => arbitrary(),
                        });
                        let out = prepend(st, rest);
                        proof {
                            let gs = seq![gst] + grest;
                            assert forall|i: int|
                                0 <= i < gs.len() implies stmt_models(out@[i], #[trigger] gs[i]) by {
                                if i > 0 {
                                    assert(gs[i] == grest[i - 1]);
                                    assert(out@[i] == rest@[i - 1]);
                                }
                            }
                        }
                        Ok((out, p3))
                    },
                }
            },
        }
    } else {
        Err(ParseError::UnexpectedEof { file: fid, expected: Expected::Statement })
    }
}

/// Reads one block statement.
pub fn consume_a_block_statement(toks: &Vec<Token>, pos: usize, fid: FileId, src: &Vec<u8>) -> (r:
    Result<(FunctionBlockStatements, usize), ParseError>)
    requires
        pos <= toks.len(),
    ensures
        res_m(
            r,
            s_consume_a_block_statement(toks@, pos as int, fid, src@),
            |v: FunctionBlockStatements, g: GStmt| stmt_models(v, g),
        ),
        moved(r, pos as int, toks@.len() as int),
    decreases toks@.len() - pos, 11int,
{
    if pos < toks.len() {
        match toks[pos] {
            Token::MutableKeyword => consume_mutable_variable_declaration(toks, pos, fid),
            Token::ImmutableKeyword => consume_immutable_variable_declaration(toks, pos, fid),
            Token::ExportKeyword => consume_export_declaration(toks, pos, fid, src),
            Token::RenderKeyword => consume_render_block(toks, pos, fid, src),
            _ => consume_expression_statement(toks, pos, fid),
        }
    } else {
        Err(ParseError::UnexpectedEof { file: fid, expected: Expected::Statement })
    }
}

/// Reads `name ( : path )? ( = expr )? ;` after a variable keyword.
fn var_decl_tail(toks: &Vec<Token>, pos: usize, fid: FileId) -> (r: Result<
    ((Span, Option<Path>, Option<Expression>), usize),
    ParseError,
>)
    requires
        pos <= toks.len(),
    ensures
        (match (r, s_var_decl_tail(toks@, pos as int, fid)) {
            (Ok((v, p)), Ok((w, q))) => v.0 == w.0 && opt_path_models(v.1, w.1) && opt_expr_models(
                v.2,
                w.2,
            ) && p as int == q,
            (Err(a), Err(b)) => perr_models(a, b),
            _ => false,
        }),
        moved(r, pos as int, toks@.len() as int),
    decreases toks@.len() - pos, 10int,
{
    match must_ident(toks, pos, fid) {
        Err(e) => Err(e),
        Ok((name, p2)) => {
            let p3 = skip_ws(toks, p2);
            let with_type: Result<(Option<Path>, usize), ParseError> = if p3 < toks.len()
                && matches!(toks[p3], Token::Colon) {
                let pw = skip_ws(toks, p3 + 1);
                match consume_a_path(toks, pw, fid) {
                    Err(e) => Err(e),
                    Ok((ty, p4)) => Ok((Some(ty), p4)),
                }
            } else {
                Ok((None, p3))
            };
            match with_type {
                Err(e) => Err(e),
                Ok((ty, p4)) => {
                    let ghost gty = (if p3 < toks@.len() && toks@[p3 as int] == Token::Colon {
                        match s_consume_a_path(toks@, s_skip_ws(toks@, p3 + 1), fid) {
                            Ok(w) => Some(w.0),
                            Err(_) => arbitrary(),
                        }
                    } else {
                        None::<GPath>
                    });
                    let p5 = skip_ws(toks, p4);
                    if p5 < toks.len() && matches!(toks[p5], Token::EqualSign) {
                        match consume_an_expression(toks, p5 + 1, fid) {
                            Err(e) => Err(e),
                            Ok((ex, p6)) => {
                                match consume_a_semicolon(toks, p6, fid) {
                                    Err(e) => Err(e),
                                    Ok((_, p7)) => Ok(((name, ty, Some(ex)), p7)),
                                }
                            },
                        }
                    } else {
                        match consume_a_semicolon(toks, p5, fid) {
                            Err(e) => Err(e),
                            Ok((_, p7)) => Ok(((name, ty, None), p7)),
                        }
                    }
                },
            }
        },
    }
}

/// Reads a `mutable` variable declaration.
pub fn consume_mutable_variable_declaration(toks: &Vec<Token>, pos: usize, fid: FileId) -> (r:
    Result<(FunctionBlockStatements, usize), ParseError>)
    requires
        pos <= toks.len(),
    ensures
        res_m(
            r,
            s_consume_mutable_variable_declaration(toks@, pos as int, fid),
            |v: FunctionBlockStatements, g: GStmt| stmt_models(v, g),
        ),
        moved(r, pos as int, toks@.len() as int),
    decreases toks@.len() - pos, 10int,
{
    if pos < toks.len() && matches!(toks[pos], Token::MutableKeyword) {
        match var_decl_tail(toks, pos + 1, fid) {
            Err(e) => Err(e),
            Ok(((name, ty, ex), p2)) => Ok(
                (
                    FunctionBlockStatements::MutableVariableDeclaration {
                        variablename: name,
                        variabletype: ty,
                        declarationexpression: ex,
                    },
                    p2,
                ),
            ),
        }
    } else {
        Err(ParseError::UnexpectedToken { at: pos, file: fid, expected: Expected::Statement })
    }
}

/// Reads an `immutable` variable declaration.
pub fn consume_immutable_variable_declaration(toks: &Vec<Token>, pos: usize, fid: FileId) -> (r:
    Result<(FunctionBlockStatements, usize), ParseError>)
    requires
        pos <= toks.len(),
    ensures
        res_m(
            r,
            s_consume_immutable_variable_declaration(toks@, pos as int, fid),
            |v: FunctionBlockStatements, g: GStmt| stmt_models(v, g),
        ),
        moved(r, pos as int, toks@.len() as int),
    decreases toks@.len() - pos, 10int,
{
    if pos < toks.len() && matches!(toks[pos], Token::ImmutableKeyword) {
        match var_decl_tail(toks, pos + 1, fid) {
            Err(e) => Err(e),
            Ok(((name, ty, ex), p2)) => Ok(
                (
                    FunctionBlockStatements::ImmutableVariableDeclaration {
                        variablename: name,
                        variabletype: ty,
                        declarationexpression: ex,
                    },
                    p2,
                ),
            ),
        }
    } else {
        Err(ParseError::UnexpectedToken { at: pos, file: fid, expected: Expected::Statement })
    }
}

/// Reads an `export` declaration; only `#col` and `#pos` may follow `#`.
pub fn consume_export_declaration(toks: &Vec<Token>, pos: usize, fid: FileId, src: &Vec<u8>) -> (r:
    Result<(FunctionBlockStatements, usize), ParseError>)
    requires
        pos <= toks.len(),
    ensures
        res_m(
            r,
            s_consume_export_declaration(toks@, pos as int, fid, src@),
            |v: FunctionBlockStatements, g: GStmt| stmt_models(v, g),
        ),
        moved(r, pos as int, toks@.len() as int),
    decreases toks@.len() - pos, 10int,
{
    if pos < toks.len() && matches!(toks[pos], Token::ExportKeyword) {
        let p = skip_ws(toks, pos + 1);
        if p < toks.len() && matches!(toks[p], Token::Hash) {
            match must_ident(toks, p + 1, fid) {
                Err(e) => Err(e),
                Ok((sp, p2)) => {
                    if !(sp.begin <= sp.end && sp.end <= src.len()) {
                        Err(ParseError::UnexpectedToken { at: p, file: fid, expected: Expected::ExportName })
                    } else {
                        let is_col = range_eq_bytes(src, sp.begin, sp.end, &lit_vec_col());
                        let is_pos = range_eq_bytes(src, sp.begin, sp.end, &lit_vec_pos());
                        if is_col {
                            export_tail(toks, p2, fid, Exported::ColorBuiltin)
                        } else if is_pos {
                            export_tail(toks, p2, fid, Exported::PositionBuiltin)
                        } else {
                            Err(ParseError::UnexpectedToken { at: p, file: fid, expected: Expected::ExportName })
                        }
                    }
                },
            }
        } else if p < toks.len() && matches!(toks[p], Token::Ident(_)) {
            let name = match toks[p] {
                Token::Ident(sp) => sp,
                _ => Span { begin: 0, end: 0 },
            };
            export_tail(toks, p + 1, fid, Exported::Custom(name))
        } else if p < toks.len() {
            Err(ParseError::UnexpectedToken { at: p, file: fid, expected: Expected::ExportName })
        } else {
            Err(ParseError::UnexpectedEof { file: fid, expected: Expected::ExportName })
        }
    } else {
        Err(ParseError::UnexpectedToken { at: pos, file: fid, expected: Expected::Statement })
    }
}

/// Reads the `( : path )? = expr ;` tail of an export statement.
fn export_tail(toks: &Vec<Token>, pos: usize, fid: FileId, exporting: Exported) -> (r: Result<
    (FunctionBlockStatements, usize),
    ParseError,
>)
    requires
        pos <= toks.len(),
    ensures
        res_m(
            r,
            s_export_tail(toks@, pos as int, fid, exporting),
            |v: FunctionBlockStatements, g: GStmt| stmt_models(v, g),
        ),
        stays(r, pos as int, toks@.len() as int),
    decreases toks@.len() - pos, 9int,
{
    let p = skip_ws(toks, pos);
    if p < toks.len() && matches!(toks[p], Token::EqualSign) {
        match consume_an_expression(toks, p + 1, fid) {
            Err(e) => Err(e),
            Ok((ex, p2)) => {
                match consume_a_semicolon(toks, p2, fid) {
                    Err(e) => Err(e),
                    Ok((_, p3)) => Ok(
                        (
                            FunctionBlockStatements::ExportDeclaration {
                                exporting,
                                exporttype: None,
                                expression: ex,
                            },
                            p3,
                        ),
                    ),
                }
            },
        }
    } else if p < toks.len() && matches!(toks[p], Token::Colon) {
        let p2 = skip_ws(toks, p + 1);
        match consume_a_path(toks, p2, fid) {
            Err(e) => Err(e),
            Ok((ty, p3)) => {
                match must(toks, p3, fid, Token::EqualSign) {
                    Err(e) => Err(e),
                    Ok((_, p4)) => {
                        match consume_an_expression(toks, p4, fid) {
                            Err(e) => Err(e),
                            Ok((ex, p5)) => {
                                match consume_a_semicolon(toks, p5, fid) {
                                    Err(e) => Err(e),
                                    Ok((_, p6)) => Ok(
                                        (
                                            FunctionBlockStatements::ExportDeclaration {
                                                exporting,
                                                exporttype: Some(ty),
                                                expression: ex,
                                            },
                                            p6,
                                        ),
                                    ),
                                }
                            },
                        }
                    },
                }
            },
        }
    } else if p < toks.len() {
        Err(ParseError::UnexpectedToken {
            at: p,
            file: fid,
            expected: Expected::AToken(Token::EqualSign),
        })
    } else {
        Err(ParseError::UnexpectedEof { file: fid, expected: Expected::AToken(Token::EqualSign) })
    }
}

/// Reads a `render { ... }` statement.
pub fn consume_render_block(toks: &Vec<Token>, pos: usize, fid: FileId, src: &Vec<u8>) -> (r:
    Result<(FunctionBlockStatements, usize), ParseError>)
    requires
        pos <= toks.len(),
    ensures
        res_m(
            r,
            s_consume_render_block(toks@, pos as int, fid, src@),
            |v: FunctionBlockStatements, g: GStmt| stmt_models(v, g),
        ),
        moved(r, pos as int, toks@.len() as int),
    decreases toks@.len() - pos, 10int,
{
    if pos < toks.len() && matches!(toks[pos], Token::RenderKeyword) {
        match consume_function_block(toks, pos + 1, fid, src) {
            Err(e) => Err(e),
            Ok((b, p2)) => Ok((FunctionBlockStatements::RenderBlock { block: b }, p2)),
        }
    } else {
        Err(ParseError::UnexpectedToken { at: pos, file: fid, expected: Expected::Statement })
    }
}

/// Reads an expression statement; a trailing `;` marks it hidden.
pub fn consume_expression_statement(toks: &Vec<Token>, pos: usize, fid: FileId) -> (r: Result<
    (FunctionBlockStatements, usize),
    ParseError,
>)
    requires
        pos <= toks.len(),
    ensures
        res_m(
            r,
            s_consume_expression_statement(toks@, pos as int, fid),
            |v: FunctionBlockStatements, g: GStmt| stmt_models(v, g),
        ),
        moved(r, pos as int, toks@.len() as int),
    decreases toks@.len() - pos, 10int,
{
    match consume_an_expression(toks, pos, fid) {
        Err(e) => Err(e),
        Ok((ex, p2)) => {
            let p3 = skip_ws(toks, p2);
            if p3 < toks.len() && matches!(toks[p3], Token::Semicolon) {
                Ok((FunctionBlockStatements::ExpressionStatement { hidden: true, expression: ex }, p3 + 1))
            } else {
                Ok((FunctionBlockStatements::ExpressionStatement { hidden: false, expression: ex }, p2))
            }
        },
    }
}

/// Reads a component body.
pub fn consume_component_declaration_block(
    toks: &Vec<Token>,
    pos: usize,
    fid: FileId,
    src: &Vec<u8>,
) -> (r: Result<(ComponentDeclarationBlock, usize), ParseError>)
    requires
        pos <= toks.len(),
    ensures
        res_m(
            r,
            s_consume_component_declaration_block(toks@, pos as int, fid, src@),
            |v: ComponentDeclarationBlock, g: Seq<GCompStmt>| v.contents@.len() == g.len() && (
            forall|i: int| 0 <= i < g.len() ==> comp_stmt_models(v.contents@[i], #[trigger] g[i])),
        ),
        moved(r, pos as int, toks@.len() as int),
    decreases toks@.len() - pos, 2int,
{
    match must(toks, pos, fid, Token::LeftCurly) {
        Err(e) => Err(e),
        Ok((_, p2)) => {
            match comp_stmts(toks, p2, fid, src) {
                Err(e) => Err(e),
                Ok((contents, p3)) => Ok((ComponentDeclarationBlock { contents }, p3)),
            }
        },
    }
}

/// Reads component statements up to the closing brace.
fn comp_stmts(toks: &Vec<Token>, pos: usize, fid: FileId, src: &Vec<u8>) -> (r: Result<
    (Vec<ComponentDeclarationBlockStatements>, usize),
    ParseError,
>)
    requires
        pos <= toks.len(),
    ensures
        res_m(
            r,
            s_comp_stmts(toks@, pos as int, fid, src@),
            |v: Vec<ComponentDeclarationBlockStatements>, g: Seq<GCompStmt>| v@.len() == g.len()
                && (forall|i: int|
                0 <= i < g.len() ==> comp_stmt_models(v@[i], #[trigger] g[i])),
        ),
        stays(r, pos as int, toks@.len() as int),
    decreases toks@.len() - pos, 12int,
{
    let p = skip_ws(toks, pos);
    if p < toks.len() && matches!(toks[p], Token::RightCurly) {
        let out: Vec<ComponentDeclarationBlockStatements> = Vec::new();
        proof {
            assert(out@.len() == Seq::<GCompStmt>::empty().len());
        }
        Ok((out, p + 1))
    } else if p < toks.len() {
        match consume_component_declaration_statement(toks, p, fid, src) {
            Err(e) => Err(e),
            Ok((st, p2)) => {
                let ghost gst = (match s_consume_component_declaration_statement(
                    toks@,
                    p as int,
                    fid,
                    src@,
                ) {
                    Ok(w) => w.0,
                    Err(_) => arbitrary(),
                });
                match comp_stmts(toks, p2, fid, src) {
                    Err(e) => Err(e),
                    Ok((rest, p3)) => {
                        let ghost grest = (match s_comp_stmts(toks@, p2 as int, fid, src@) {
                            Ok(w) => w.0,
                            Err(_) => arbitrary(),
                        });
                        let out = prepend(st, rest);
                        proof {
                            let gs = seq![gst] + grest;
                            assert forall|i: int|
                                0 <= i < gs.len() implies comp_stmt_models(
                                out@[i],
                                #[trigger] gs[i],
                            ) by {
                                if i > 0 {
                                    assert(gs[i] == grest[i - 1]);
                                    assert(out@[i] == rest@[i - 1]);
                                }
                            }
                        }
                        Ok((out, p3))
                    },
                }
            },
        }
    } else {
        Err(ParseError::UnexpectedEof { file: fid, expected: Expected::ComponentStatement })
    }
}

/// Reads one component statement.
pub fn consume_component_declaration_statement(
    toks: &Vec<Token>,
    pos: usize,
    fid: FileId,
    src: &Vec<u8>,
) -> (r: Result<(ComponentDeclarationBlockStatements, usize), ParseError>)
    requires
        pos <= toks.len(),
    ensures
        res_m(
            r,
            s_consume_component_declaration_statement(toks@, pos as int, fid, src@),
            |v: ComponentDeclarationBlockStatements, g: GCompStmt| comp_stmt_models(v, g),
        ),
        moved(r, pos as int, toks@.len() as int),
    decreases toks@.len() - pos, 11int,
{
    if pos < toks.len() {
        match toks[pos] {
            Token::FinalKeyword => consume_final_variable_declaration(toks, pos + 1, fid),
            Token::RenderKeyword => consume_component_render_block(toks, pos + 1, fid, src),
            Token::PublicKeyword => consume_public_constructor(toks, pos + 1, fid),
            _ => Err(ParseError::UnexpectedToken {
                at: pos,
                file: fid,
                expected: Expected::ComponentStatement,
            }),
        }
    } else {
        Err(ParseError::UnexpectedEof { file: fid, expected: Expected::ComponentStatement })
    }
}

/// Reads a `final` variable declaration, the keyword already consumed.
pub fn consume_final_variable_declaration(toks: &Vec<Token>, pos: usize, fid: FileId) -> (r: Result<
    (ComponentDeclarationBlockStatements, usize),
    ParseError,
>)
    requires
        pos <= toks.len(),
    ensures
        res_m(
            r,
            s_consume_final_variable_declaration(toks@, pos as int, fid),
            |v: ComponentDeclarationBlockStatements, g: GCompStmt| comp_stmt_models(v, g),
        ),
        moved(r, pos as int, toks@.len() as int),
    decreases toks@.len() - pos, 10int,
{
    match var_decl_tail(toks, pos, fid) {
        Err(e) => Err(e),
        Ok(((name, ty, ex), p2)) => Ok(
            (
                ComponentDeclarationBlockStatements::FinalVariableDeclaration {
                    variablename: name,
                    variabletype: ty,
                    declarationexpression: ex,
                },
                p2,
            ),
        ),
    }
}

/// Reads a `public expr ;` constructor, the keyword already consumed.
pub fn consume_public_constructor(toks: &Vec<Token>, pos: usize, fid: FileId) -> (r: Result<
    (ComponentDeclarationBlockStatements, usize),
    ParseError,
>)
    requires
        pos <= toks.len(),
    ensures
        res_m(
            r,
            s_consume_public_constructor(toks@, pos as int, fid),
            |v: ComponentDeclarationBlockStatements, g: GCompStmt| comp_stmt_models(v, g),
        ),
        moved(r, pos as int, toks@.len() as int),
    decreases toks@.len() - pos, 10int,
{
    match consume_an_expression(toks, pos, fid) {
        Err(e) => Err(e),
        Ok((ex, p2)) => {
            match consume_a_semicolon(toks, p2, fid) {
                Err(e) => Err(e),
                Ok((_, p3)) => Ok(
                    (ComponentDeclarationBlockStatements::PublicConstructor { expression: ex }, p3),
                ),
            }
        },
    }
}

/// Reads `{ vertices <block> fragments <block> }`, the `render` keyword
/// already consumed.
pub fn consume_component_render_block(toks: &Vec<Token>, pos: usize, fid: FileId, src: &Vec<u8>) -> (r:
    Result<(ComponentDeclarationBlockStatements, usize), ParseError>)
    requires
        pos <= toks.len(),
    ensures
        res_m(
            r,
            s_consume_component_render_block(toks@, pos as int, fid, src@),
            |v: ComponentDeclarationBlockStatements, g: GCompStmt| comp_stmt_models(v, g),
        ),
        moved(r, pos as int, toks@.len() as int),
    decreases toks@.len() - pos, 10int,
{
    match must(toks, pos, fid, Token::LeftCurly) {
        Err(e) => Err(e),
        Ok((_, p2)) => {
            match must(toks, p2, fid, Token::VerticesKeyword) {
                Err(e) => Err(e),
                Ok((_, p3)) => {
                    match consume_function_block(toks, p3, fid, src) {
                        Err(e) => Err(e),
                        Ok((vb, p4)) => {
                            match must(toks, p4, fid, Token::FragmentsKeyword) {
                                Err(e) => Err(e),
                                Ok((_, p5)) => {
                                    match consume_function_block(toks, p5, fid, src) {
                                        Err(e) => Err(e),
                                        Ok((fb, p6)) => {
                                            match must(toks, p6, fid, Token::RightCurly) {
                                                Err(e) => Err(e),
                                                Ok((_, p7)) => Ok(
                                                    (
                                                        ComponentDeclarationBlockStatements::RenderBlockDeclaration {
                                                            block: RenderBlock {
                                                                vertices_block: VerticesBlock { block: vb },
                                                                fragments_block: FragmentsBlock { block: fb },
                                                            },
                                                        },
                                                        p7,
                                                    ),
                                                ),
                                            }
                                        },
                                    }
                                },
                            }
                        },
                    }
                },
            }
        },
    }
}

/// Reads a type body.
pub fn consume_subtype(toks: &Vec<Token>, pos: usize, fid: FileId) -> (r: Result<
    (SubType, usize),
    ParseError,
>)
    requires
        pos <= toks.len(),
    ensures
        res_m(
            r,
            s_consume_subtype(toks@, pos as int, fid),
            |v: SubType, g: GSubType| subtype_models(v, g),
        ),
        moved(r, pos as int, toks@.len() as int),
    decreases toks@.len() - pos, 17int,
{
    let p = skip_ws(toks, pos);
    if p < toks.len() {
        match toks[p] {
            Token::Ident(_) => consume_named_subtype(toks, p, fid),
            Token::LeftParenthesis => consume_union_subtype(toks, p, fid),
            Token::LeftCurly => consume_map_subtype(toks, p, fid),
            _ => Err(ParseError::UnexpectedToken { at: p, file: fid, expected: Expected::Subtype }),
        }
    } else {
        Err(ParseError::UnexpectedEof { file: fid, expected: Expected::Subtype })
    }
}

/// Reads `name` or `name : body`.
pub fn consume_named_subtype(toks: &Vec<Token>, pos: usize, fid: FileId) -> (r: Result<
    (SubType, usize),
    ParseError,
>)
    requires
        pos <= toks.len(),
    ensures
        res_m(
            r,
            s_consume_named_subtype(toks@, pos as int, fid),
            |v: SubType, g: GSubType| subtype_models(v, g),
        ),
        moved(r, pos as int, toks@.len() as int),
    decreases toks@.len() - pos, 16int,
{
    match must_ident(toks, pos, fid) {
        Err(e) => Err(e),
        Ok((name, p2)) => {
            let p3 = skip_ws(toks, p2);
            if p3 < toks.len() && (matches!(toks[p3], Token::Semicolon) || matches!(
                toks[p3],
                Token::Pipe,
            ) || matches!(toks[p3], Token::RightParenthesis) || matches!(toks[p3], Token::Comma)
                || matches!(toks[p3], Token::RightCurly)) {
                Ok((SubType::Name(name), p3))
            } else if p3 < toks.len() && matches!(toks[p3], Token::Colon) {
                match consume_subtype(toks, p3 + 1, fid) {
                    Err(e) => Err(e),
                    Ok((b, p4)) => Ok((SubType::Named(name, Box::new(b)), p4)),
                }
            } else if p3 < toks.len() {
                Err(ParseError::UnexpectedToken { at: p3, file: fid, expected: Expected::Subtype })
            } else {
                Err(ParseError::UnexpectedEof { file: fid, expected: Expected::Subtype })
            }
        },
    }
}

/// Reads a union body.
pub fn consume_union_subtype(toks: &Vec<Token>, pos: usize, fid: FileId) -> (r: Result<
    (SubType, usize),
    ParseError,
>)
    requires
        pos <= toks.len(),
    ensures
        res_m(
            r,
            s_consume_union_subtype(toks@, pos as int, fid),
            |v: SubType, g: GSubType| subtype_models(v, g),
        ),
        moved(r, pos as int, toks@.len() as int),
    decreases toks@.len() - pos, 16int,
{
    if pos < toks.len() && matches!(toks[pos], Token::LeftParenthesis) {
        match union_items(toks, pos + 1, fid) {
            Err(e) => Err(e),
            Ok((items, p2)) => Ok((SubType::Union(items), p2)),
        }
    } else {
        Err(ParseError::UnexpectedToken { at: pos, file: fid, expected: Expected::Subtype })
    }
}

/// Reads union members up to the closing parenthesis.
fn union_items(toks: &Vec<Token>, pos: usize, fid: FileId) -> (r: Result<
    (Vec<SubType>, usize),
    ParseError,
>)
    requires
        pos <= toks.len(),
    ensures
        res_m(
            r,
            s_union_items(toks@, pos as int, fid),
            |v: Vec<SubType>, g: Seq<GSubType>| v@.len() == g.len() && (forall|i: int|
                0 <= i < g.len() ==> subtype_models(v@[i], #[trigger] g[i])),
        ),
        stays(r, pos as int, toks@.len() as int),
    decreases toks@.len() - pos, 18int,
{
    let p = skip_ws(toks, pos);
    if p < toks.len() && matches!(toks[p], Token::RightParenthesis) {
        let out: Vec<SubType> = Vec::new();
        proof {
            assert(out@.len() == Seq::<GSubType>::empty().len());
        }
        Ok((out, p + 1))
    } else if p < toks.len() && (matches!(toks[p], Token::Ident(_)) || matches!(
        toks[p],
        Token::LeftParenthesis,
    ) || matches!(toks[p], Token::LeftCurly)) {
        match consume_subtype(toks, p, fid) {
            Err(e) => Err(e),
            Ok((st, p2)) => {
                let ghost gst = (match s_consume_subtype(toks@, p as int, fid) {
                    Ok(w) => w.0,
                    Err(_) => arbitrary(),
                });
                let p3 = skip_ws(toks, p2);
                let next = if p3 < toks.len() && matches!(toks[p3], Token::Pipe) {
                    union_items(toks, p3 + 1, fid)
                } else {
                    union_items(toks, p3, fid)
                };
                match next {
                    Err(e) => Err(e),
                    Ok((rest, p4)) => {
                        let ghost grest = (if p3 < toks@.len() && toks@[p3 as int] == Token::Pipe {
                            match s_union_items(toks@, p3 + 1, fid) {
                                Ok(w) => w.0,
                                Err(_) => arbitrary(),
                            }
                        } else {
                            match s_union_items(toks@, p3 as int, fid) {
                                Ok(w) => w.0,
                                Err(_) => arbitrary(),
                            }
                        });
                        let out = prepend(st, rest);
                        proof {
                            let gs = seq![gst] + grest;
                            assert forall|i: int|
                                0 <= i < gs.len() implies subtype_models(out@[i], #[trigger] gs[i])
                            by {
                                if i > 0 {
                                    assert(gs[i] == grest[i - 1]);
                                    assert(out@[i] == rest@[i - 1]);
                                }
                            }
                        }
                        Ok((out, p4))
                    },
                }
            },
        }
    } else if p < toks.len() {
        Err(ParseError::UnexpectedToken { at: p, file: fid, expected: Expected::Subtype })
    } else {
        Err(ParseError::UnexpectedEof { file: fid, expected: Expected::Subtype })
    }
}

/// Reads a field-map body.
pub fn consume_map_subtype(toks: &Vec<Token>, pos: usize, fid: FileId) -> (r: Result<
    (SubType, usize),
    ParseError,
>)
    requires
        pos <= toks.len(),
    ensures
        res_m(
            r,
            s_consume_map_subtype(toks@, pos as int, fid),
            |v: SubType, g: GSubType| subtype_models(v, g),
        ),
        moved(r, pos as int, toks@.len() as int),
    decreases toks@.len() - pos, 16int,
{
    if pos < toks.len() && matches!(toks[pos], Token::LeftCurly) {
        match map_items(toks, pos + 1, fid) {
            Err(e) => Err(e),
            Ok((items, p2)) => Ok((SubType::Mapping(items), p2)),
        }
    } else {
        Err(ParseError::UnexpectedToken { at: pos, file: fid, expected: Expected::Subtype })
    }
}

/// Reads map fields up to the closing brace.
fn map_items(toks: &Vec<Token>, pos: usize, fid: FileId) -> (r: Result<
    (Vec<(Span, SubType)>, usize),
    ParseError,
>)
    requires
        pos <= toks.len(),
    ensures
        res_m(
            r,
            s_map_items(toks@, pos as int, fid),
            |v: Vec<(Span, SubType)>, g: Seq<(Span, GSubType)>| v@.len() == g.len() && (forall|
                i: int,
            |
                0 <= i < g.len() ==> {
                    &&& v@[i].0 == (#[trigger] g[i]).0
                    &&& subtype_models(v@[i].1, g[i].1)
                }),
        ),
        stays(r, pos as int, toks@.len() as int),
    decreases toks@.len() - pos, 18int,
{
    let p = skip_ws(toks, pos);
    if p < toks.len() && matches!(toks[p], Token::RightCurly) {
        let out: Vec<(Span, SubType)> = Vec::new();
        proof {
            assert(out@.len() == Seq::<(Span, GSubType)>::empty().len());
        }
        Ok((out, p + 1))
    } else if p < toks.len() && matches!(toks[p], Token::Ident(_)) {
        let name = match toks[p] {
            Token::Ident(sp) => sp,
            _ => Span { begin: 0, end: 0 },
        };
        match must(toks, p + 1, fid, Token::Colon) {
            Err(e) => Err(e),
            Ok((_, p2)) => {
                match consume_subtype(toks, p2, fid) {
                    Err(e) => Err(e),
                    Ok((st, p3)) => {
                        let ghost gst = (match s_consume_subtype(toks@, p2 as int, fid) {
                            Ok(w) => w.0,
                            Err(_) => arbitrary(),
                        });
                        let p4 = skip_ws(toks, p3);
                        let next = if p4 < toks.len() && matches!(toks[p4], Token::Comma) {
                            map_items(toks, p4 + 1, fid)
                        } else {
                            map_items(toks, p4, fid)
                        };
                        match next {
                            Err(e) => Err(e),
                            Ok((rest, p5)) => {
                                let ghost grest = (if p4 < toks@.len() && toks@[p4 as int]
                                    == Token::Comma {
                                    match s_map_items(toks@, p4 + 1, fid) {
                                        Ok(w) => w.0,
                                        Err(_) => arbitrary(),
                                    }
                                } else {
                                    match s_map_items(toks@, p4 as int, fid) {
                                        Ok(w) => w.0,
                                        Err(_) => arbitrary(),
                                    }
                                });
                                let out = prepend((name, st), rest);
                                proof {
                                    let gs = seq![(name, gst)] + grest;
                                    assert forall|i: int|
                                        0 <= i < gs.len() implies {
                                        &&& out@[i].0 == (#[trigger] gs[i]).0
                                        &&& subtype_models(out@[i].1, gs[i].1)
                                    } by {
                                        if i > 0 {
                                            assert(gs[i] == grest[i - 1]);
                                            assert(out@[i] == rest@[i - 1]);
                                        }
                                    }
                                }
                                Ok((out, p5))
                            },
                        }
                    },
                }
            },
        }
    } else if p < toks.len() {
        Err(ParseError::UnexpectedToken { at: p, file: fid, expected: Expected::Ident })
    } else {
        Err(ParseError::UnexpectedEof { file: fid, expected: Expected::Ident })
    }
}


// ---------------------------------------------------------------------------
// Top-level productions that stay within one file.
// ---------------------------------------------------------------------------

/// `using <path> ;`.
pub open spec fn s_consume_using_keyword(toks: Seq<Token>, pos: int, fid: FileId) -> Result<
    (GNode, int),
    GParseError,
> {
    if 0 <= pos < toks.len() && toks[pos] == Token::UsingKeyword {
        let p = s_skip_ws(toks, pos + 1);
        if !within(pos + 1, p, toks.len() as int) {
            Err(g_stuck(fid))
        } else {
            match s_consume_a_path(toks, p, fid) {
                Err(e) => Err(e),
                Ok((path, p2)) => {
                    if !(p <= p2 <= toks.len()) {
                        Err(g_stuck(fid))
                    } else {
                        match s_consume_a_semicolon(toks, p2, fid) {
                            Err(e) => Err(e),
                            Ok((_, p3)) => Ok((GNode::UsingStatement { using: path }, p3)),
                        }
                    }
                },
            }
        }
    } else {
        Err(GParseError::UnexpectedToken { at: pos as usize, file: fid, expected: Expected::TopLevel })
    }
}

/// Reads `using <path> ;`.
pub fn consume_using_keyword(toks: &Vec<Token>, pos: usize, fid: FileId) -> (r: Result<
    (ASTNode, usize),
    ParseError,
>)
    requires
        pos <= toks.len(),
    ensures
        res_m(
            r,
            s_consume_using_keyword(toks@, pos as int, fid),
            |v: ASTNode, g: GNode| node_models(v, g),
        ),
        moved(r, pos as int, toks@.len() as int),
{
    if pos < toks.len() && matches!(toks[pos], Token::UsingKeyword) {
        let p = skip_ws(toks, pos + 1);
        match consume_a_path(toks, p, fid) {
            Err(e) => Err(e),
            Ok((path, p2)) => {
                match consume_a_semicolon(toks, p2, fid) {
                    Err(e) => Err(e),
                    Ok((_, p3)) => Ok((ASTNode::UsingStatement { using: path }, p3)),
                }
            },
        }
    } else {
        Err(ParseError::UnexpectedToken { at: pos, file: fid, expected: Expected::TopLevel })
    }
}

/// `function name generics? ( params ) ( => path )? { block }`.
pub open spec fn s_consume_function_keyword(toks: Seq<Token>, pos: int, fid: FileId, src: Seq<u8>) -> Result<
    (GNode, int),
    GParseError,
> {
    if 0 <= pos < toks.len() && toks[pos] == Token::FunctionKeyword {
        match s_must_ident(toks, pos + 1, fid) {
            Err(e) => Err(e),
            Ok((name, p2)) => {
                match s_consume_generics(toks, p2, fid) {
                    Err(e) => Err(e),
                    Ok((generics, p3)) => {
                        match s_consume_function_parameters(toks, p3, fid) {
                            Err(e) => Err(e),
                            Ok((params, p4)) => {
                                let p5 = s_skip_ws(toks, p4);
                                if !within(p4, p5, toks.len() as int) {
                                    Err(g_stuck(fid))
                                } else {
                                    let with_out = (if p5 < toks.len() && toks[p5]
                                        == Token::FatArrow {
                                        let p6 = s_skip_ws(toks, p5 + 1);
                                        if !within(p5 + 1, p6, toks.len() as int) {
                                            Err(g_stuck(fid))
                                        } else {
                                            match s_consume_a_path(toks, p6, fid) {
                                                Err(e) => Err(e),
                                                Ok((ty, p7)) => Ok((Some(ty), p7)),
                                            }
                                        }
                                    } else {
                                        Ok((None::<GPath>, p5))
                                    });
                                    match with_out {
                                        Err(e) => Err(e),
                                        Ok((out_type, p7)) => {
                                            match s_consume_function_block(toks, p7, fid, src) {
                                                Err(e) => Err(e),
                                                Ok((block, p8)) => Ok(
                                                    (
                                                        GNode::FunctionDeclaration {
                                                            name,
                                                            generics,
                                                            params,
                                                            block,
                                                            out_type,
                                                        },
                                                        p8,
                                                    ),
                                                ),
                                            }
                                        },
                                    }
                                }
                            },
                        }
                    },
                }
            },
        }
    } else {
        Err(GParseError::UnexpectedToken { at: pos as usize, file: fid, expected: Expected::TopLevel })
    }
}

/// Reads a function declaration.
pub fn consume_function_keyword(toks: &Vec<Token>, pos: usize, fid: FileId, src: &Vec<u8>) -> (r:
    Result<(ASTNode, usize), ParseError>)
    requires
        pos <= toks.len(),
    ensures
        res_m(
            r,
            s_consume_function_keyword(toks@, pos as int, fid, src@),
            |v: ASTNode, g: GNode| node_models(v, g),
        ),
        moved(r, pos as int, toks@.len() as int),
{
    if pos < toks.len() && matches!(toks[pos], Token::FunctionKeyword) {
        match must_ident(toks, pos + 1, fid) {
            Err(e) => Err(e),
            Ok((name, p2)) => {
                match consume_generics(toks, p2, fid) {
                    Err(e) => Err(e),
                    Ok((generics, p3)) => {
                        match consume_function_parameters(toks, p3, fid) {
                            Err(e) => Err(e),
                            Ok((params, p4)) => {
                                let p5 = skip_ws(toks, p4);
                                let with_out: Result<(Option<Path>, usize), ParseError> = if p5
                                    < toks.len() && matches!(toks[p5], Token::FatArrow) {
                                    let p6 = skip_ws(toks, p5 + 1);
                                    match consume_a_path(toks, p6, fid) {
                                        Err(e) => Err(e),
                                        Ok((ty, p7)) => Ok((Some(ty), p7)),
                                    }
                                } else {
                                    Ok((None, p5))
                                };
                                match with_out {
                                    Err(e) => Err(e),
                                    Ok((out_type, p7)) => {
                                        match consume_function_block(toks, p7, fid, src) {
                                            Err(e) => Err(e),
                                            Ok((block, p8)) => Ok(
                                                (
                                                    ASTNode::FunctionDeclaration {
                                                        name,
                                                        generics,
                                                        params,
                                                        block,
                                                        out_type,
                                                    },
                                                    p8,
                                                ),
                                            ),
                                        }
                                    },
                                }
                            },
                        }
                    },
                }
            },
        }
    } else {
        Err(ParseError::UnexpectedToken { at: pos, file: fid, expected: Expected::TopLevel })
    }
}

/// `viewport name ( params ) { block }`.
pub open spec fn s_consume_viewport_keyword(toks: Seq<Token>, pos: int, fid: FileId, src: Seq<u8>) -> Result<
    (GNode, int),
    GParseError,
> {
    if 0 <= pos < toks.len() && toks[pos] == Token::ViewportKeyword {
        match s_must_ident(toks, pos + 1, fid) {
            Err(e) => Err(e),
            Ok((name, p2)) => {
                match s_consume_function_parameters(toks, p2, fid) {
                    Err(e) => Err(e),
                    Ok((params, p3)) => {
                        match s_consume_function_block(toks, p3, fid, src) {
                            Err(e) => Err(e),
                            Ok((block, p4)) => Ok(
                                (GNode::ViewportDeclaration { name, params, block }, p4),
                            ),
                        }
                    },
                }
            },
        }
    } else {
        Err(GParseError::UnexpectedToken { at: pos as usize, file: fid, expected: Expected::TopLevel })
    }
}

/// Reads a viewport declaration.
pub fn consume_viewport_keyword(toks: &Vec<Token>, pos: usize, fid: FileId, src: &Vec<u8>) -> (r:
    Result<(ASTNode, usize), ParseError>)
    requires
        pos <= toks.len(),
    ensures
        res_m(
            r,
            s_consume_viewport_keyword(toks@, pos as int, fid, src@),
            |v: ASTNode, g: GNode| node_models(v, g),
        ),
        moved(r, pos as int, toks@.len() as int),
{
    if pos < toks.len() && matches!(toks[pos], Token::ViewportKeyword) {
        match must_ident(toks, pos + 1, fid) {
            Err(e) => Err(e),
            Ok((name, p2)) => {
                match consume_function_parameters(toks, p2, fid) {
                    Err(e) => Err(e),
                    Ok((params, p3)) => {
                        match consume_function_block(toks, p3, fid, src) {
                            Err(e) => Err(e),
                            Ok((block, p4)) => Ok(
                                (ASTNode::ViewportDeclaration { name, params, block }, p4),
                            ),
                        }
                    },
                }
            },
        }
    } else {
        Err(ParseError::UnexpectedToken { at: pos, file: fid, expected: Expected::TopLevel })
    }
}

/// `component name { component statements }`.
pub open spec fn s_consume_component_keyword(toks: Seq<Token>, pos: int, fid: FileId, src: Seq<u8>) -> Result<
    (GNode, int),
    GParseError,
> {
    if 0 <= pos < toks.len() && toks[pos] == Token::ComponentKeyword {
        match s_must_ident(toks, pos + 1, fid) {
            Err(e) => Err(e),
            Ok((name, p2)) => {
                match s_consume_component_declaration_block(toks, p2, fid, src) {
                    Err(e) => Err(e),
                    Ok((block, p3)) => Ok((GNode::ComponentDeclaration { name, block }, p3)),
                }
            },
        }
    } else {
        Err(GParseError::UnexpectedToken { at: pos as usize, file: fid, expected: Expected::TopLevel })
    }
}

/// Reads a component declaration.
pub fn consume_component_keyword(toks: &Vec<Token>, pos: usize, fid: FileId, src: &Vec<u8>) -> (r:
    Result<(ASTNode, usize), ParseError>)
    requires
        pos <= toks.len(),
    ensures
        res_m(
            r,
            s_consume_component_keyword(toks@, pos as int, fid, src@),
            |v: ASTNode, g: GNode| node_models(v, g),
        ),
        moved(r, pos as int, toks@.len() as int),
{
    if pos < toks.len() && matches!(toks[pos], Token::ComponentKeyword) {
        match must_ident(toks, pos + 1, fid) {
            Err(e) => Err(e),
            Ok((name, p2)) => {
                match consume_component_declaration_block(toks, p2, fid, src) {
                    Err(e) => Err(e),
                    Ok((block, p3)) => Ok((ASTNode::ComponentDeclaration { name, block }, p3)),
                }
            },
        }
    } else {
        Err(ParseError::UnexpectedToken { at: pos, file: fid, expected: Expected::TopLevel })
    }
}

/// `type name generics? ( = body )? ;`.
pub open spec fn s_consume_type_keyword(toks: Seq<Token>, pos: int, fid: FileId) -> Result<
    (GNode, int),
    GParseError,
> {
    if 0 <= pos < toks.len() && toks[pos] == Token::TypeKeyword {
        match s_must_ident(toks, pos + 1, fid) {
            Err(e) => Err(e),
            Ok((name, p2)) => {
                match s_consume_generics(toks, p2, fid) {
                    Err(e) => Err(e),
                    Ok((generics, p3)) => {
                        let p4 = s_skip_ws(toks, p3);
                        if !within(p3, p4, toks.len() as int) {
                            Err(g_stuck(fid))
                        } else if p4 < toks.len() && toks[p4] == Token::EqualSign {
                            match s_consume_subtype(toks, p4 + 1, fid) {
                                Err(e) => Err(e),
                                Ok((subtype, p5)) => {
                                    match s_consume_a_semicolon(toks, p5, fid) {
                                        Err(e) => Err(e),
                                        Ok((_, p6)) => Ok(
                                            (GNode::TypeDeclaration { name, generics, subtype }, p6),
                                        ),
                                    }
                                },
                            }
                        } else if p4 < toks.len() && toks[p4] == Token::Semicolon {
                            Ok((GNode::TypeDeclaration { name, generics, subtype: GSubType::Empty }, p4 + 1))
                        } else if p4 < toks.len() {
                            Err(GParseError::UnexpectedToken {
                                at: p4 as usize,
                                file: fid,
                                expected: Expected::AToken(Token::Semicolon),
                            })
                        } else {
                            Err(GParseError::UnexpectedEof {
                                file: fid,
                                expected: Expected::AToken(Token::Semicolon),
                            })
                        }
                    },
                }
            },
        }
    } else {
        Err(GParseError::UnexpectedToken { at: pos as usize, file: fid, expected: Expected::TopLevel })
    }
}

/// Reads a type declaration.
pub fn consume_type_keyword(toks: &Vec<Token>, pos: usize, fid: FileId) -> (r: Result<
    (ASTNode, usize),
    ParseError,
>)
    requires
        pos <= toks.len(),
    ensures
        res_m(
            r,
            s_consume_type_keyword(toks@, pos as int, fid),
            |v: ASTNode, g: GNode| node_models(v, g),
        ),
        moved(r, pos as int, toks@.len() as int),
{
    if pos < toks.len() && matches!(toks[pos], Token::TypeKeyword) {
        match must_ident(toks, pos + 1, fid) {
            Err(e) => Err(e),
            Ok((name, p2)) => {
                match consume_generics(toks, p2, fid) {
                    Err(e) => Err(e),
                    Ok((generics, p3)) => {
                        let p4 = skip_ws(toks, p3);
                        if p4 < toks.len() && matches!(toks[p4], Token::EqualSign) {
                            match consume_subtype(toks, p4 + 1, fid) {
                                Err(e) => Err(e),
                                Ok((subtype, p5)) => {
                                    match consume_a_semicolon(toks, p5, fid) {
                                        Err(e) => Err(e),
                                        Ok((_, p6)) => Ok(
                                            (ASTNode::TypeDeclaration { name, generics, subtype }, p6),
                                        ),
                                    }
                                },
                            }
                        } else if p4 < toks.len() && matches!(toks[p4], Token::Semicolon) {
                            Ok(
                                (
                                    ASTNode::TypeDeclaration {
                                        name,
                                        generics,
                                        subtype: SubType::Empty,
                                    },
                                    p4 + 1,
                                ),
                            )
                        } else if p4 < toks.len() {
                            Err(ParseError::UnexpectedToken {
                                at: p4,
                                file: fid,
                                expected: Expected::AToken(Token::Semicolon),
                            })
                        } else {
                            Err(ParseError::UnexpectedEof {
                                file: fid,
                                expected: Expected::AToken(Token::Semicolon),
                            })
                        }
                    },
                }
            },
        }
    } else {
        Err(ParseError::UnexpectedToken { at: pos, file: fid, expected: Expected::TopLevel })
    }
}

pub open spec fn lit_language() -> Seq<u8> {
    seq!['l' as u8, 'a' as u8, 'n' as u8, 'g' as u8, 'u' as u8, 'a' as u8, 'g' as u8, 'e' as u8]
}

pub open spec fn lit_inline() -> Seq<u8> {
    seq!['i' as u8, 'n' as u8, 'l' as u8, 'i' as u8, 'n' as u8, 'e' as u8]
}

/// One or more `@name` attributes; the known names are `language("...")` and
/// `inline`.
pub open spec fn s_attr_list(toks: Seq<Token>, pos: int, fid: FileId, src: Seq<u8>) -> Result<
    (Seq<Attribute>, int),
    GParseError,
>
    decreases toks.len() - pos, 20int,
{
    if 0 <= pos < toks.len() && toks[pos] == Token::AtSign {
        match s_must_ident(toks, pos + 1, fid) {
            Err(e) => Err(e),
            Ok((sp, p2)) => {
                if !(pos < p2 <= toks.len()) {
                    Err(g_stuck(fid))
                } else if !(sp.begin <= sp.end <= src.len()) {
                    Err(GParseError::UnexpectedToken { at: pos as usize, file: fid, expected: Expected::AttributeName })
                } else {
                    let w = src.subrange(sp.begin as int, sp.end as int);
                    let one = (if w == lit_language() {
                        match s_must(toks, p2, fid, Token::LeftParenthesis) {
                            Err(e) => Err(e),
                            Ok((_, p3)) => {
                                if !(p2 <= p3 <= toks.len()) {
                                    Err(g_stuck(fid))
                                } else {
                                    match s_must_string(toks, p3, fid) {
                                        Err(e) => Err(e),
                                        Ok((lit, p4)) => {
                                            if !(p3 <= p4 <= toks.len()) {
                                                Err(g_stuck(fid))
                                            } else {
                                                match s_must(toks, p4, fid, Token::RightParenthesis) {
                                                    Err(e) => Err(e),
                                                    Ok((_, p5)) => Ok(
                                                        (Attribute::LanguageAttribute(lit), p5),
                                                    ),
                                                }
                                            }
                                        },
                                    }
                                }
                            },
                        }
                    } else if w == lit_inline() {
                        Ok((Attribute::Inline, p2))
                    } else {
                        Err(GParseError::UnexpectedToken { at: pos as usize, file: fid, expected: Expected::AttributeName })
                    });
                    match one {
                        Err(e) => Err(e),
                        Ok((attr, p5)) => {
                            if !(pos < p5 <= toks.len()) {
                                Err(g_stuck(fid))
                            } else {
                                let p6 = s_skip_ws(toks, p5);
                                if !within(p5, p6, toks.len() as int) {
                                    Err(g_stuck(fid))
                                } else if p6 < toks.len() && toks[p6] == Token::AtSign {
                                    match s_attr_list(toks, p6, fid, src) {
                                        Err(e) => Err(e),
                                        Ok((rest, p7)) => Ok((seq![attr] + rest, p7)),
                                    }
                                } else {
                                    Ok((seq![attr], p6))
                                }
                            }
                        },
                    }
                }
            },
        }
    } else {
        Err(GParseError::UnexpectedToken { at: pos as usize, file: fid, expected: Expected::AttributeName })
    }
}


/// Byte-for-byte equality of `src[b..e]` with `kw`.
fn range_eq_bytes(src: &Vec<u8>, b: usize, e: usize, kw: &Vec<u8>) -> (r: bool)
    requires
        b <= e <= src@.len(),
    ensures
        r == (src@.subrange(b as int, e as int) == kw@),
{
    let ghost w = src@.subrange(b as int, e as int);
    if e - b != kw.len() {
        return false;
    }
    let mut i: usize = 0;
    while i < kw.len()
        invariant
            b <= e <= src@.len(),
            e - b == kw@.len(),
            0 <= i <= kw@.len(),
            w == src@.subrange(b as int, e as int),
            forall|j: int| 0 <= j < i ==> w[j] == kw@[j],
        decreases kw@.len() - i,
    {
        if src[b + i] != kw[i] {
            proof {
                assert(w[i as int] == src@[b + i]);
            }
            return false;
        }
        i = i + 1;
    }
    proof {
        assert(w =~= kw@);
    }
    true
}

fn lit_vec_col() -> (v: Vec<u8>)
    ensures
        v@ == lit_col(),
{
    let mut v: Vec<u8> = Vec::new();
    v.push('c' as u8);
    v.push('o' as u8);
    v.push('l' as u8);
    proof {
        assert(v@ =~= lit_col());
    }
    v
}

fn lit_vec_pos() -> (v: Vec<u8>)
    ensures
        v@ == lit_pos(),
{
    let mut v: Vec<u8> = Vec::new();
    v.push('p' as u8);
    v.push('o' as u8);
    v.push('s' as u8);
    proof {
        assert(v@ =~= lit_pos());
    }
    v
}

fn lit_vec_language() -> (v: Vec<u8>)
    ensures
        v@ == lit_language(),
{
    let mut v: Vec<u8> = Vec::new();
    v.push('l' as u8);
    v.push('a' as u8);
    v.push('n' as u8);
    v.push('g' as u8);
    v.push('u' as u8);
    v.push('a' as u8);
    v.push('g' as u8);
    v.push('e' as u8);
    proof {
        assert(v@ =~= lit_language());
    }
    v
}

fn lit_vec_inline() -> (v: Vec<u8>)
    ensures
        v@ == lit_inline(),
{
    let mut v: Vec<u8> = Vec::new();
    v.push('i' as u8);
    v.push('n' as u8);
    v.push('l' as u8);
    v.push('i' as u8);
    v.push('n' as u8);
    v.push('e' as u8);
    proof {
        assert(v@ =~= lit_inline());
    }
    v
}

/// Reads one or more attributes.
#[verifier::rlimit(80)]
fn attr_list(toks: &Vec<Token>, pos: usize, fid: FileId, src: &Vec<u8>) -> (r: Result<
    (Vec<Attribute>, usize),
    ParseError,
>)
    requires
        pos <= toks.len(),
    ensures
        res_m(
            r,
            s_attr_list(toks@, pos as int, fid, src@),
            |v: Vec<Attribute>, g: Seq<Attribute>| v@ == g,
        ),
        moved(r, pos as int, toks@.len() as int),
    decreases toks@.len() - pos, 20int,
{
    if pos < toks.len() && matches!(toks[pos], Token::AtSign) {
        match must_ident(toks, pos + 1, fid) {
            Err(e) => Err(e),
            Ok((sp, p2)) => {
                if !(sp.begin <= sp.end && sp.end <= src.len()) {
                    Err(ParseError::UnexpectedToken { at: pos, file: fid, expected: Expected::AttributeName })
                } else {
                    let is_language = range_eq_bytes(src, sp.begin, sp.end, &lit_vec_language());
                    let is_inline = range_eq_bytes(src, sp.begin, sp.end, &lit_vec_inline());
                    let one: Result<(Attribute, usize), ParseError> = if is_language {
                        match must(toks, p2, fid, Token::LeftParenthesis) {
                            Err(e) => Err(e),
                            Ok((_, p3)) => {
                                match must_string(toks, p3, fid) {
                                    Err(e) => Err(e),
                                    Ok((lit, p4)) => {
                                        match must(toks, p4, fid, Token::RightParenthesis) {
                                            Err(e) => Err(e),
                                            Ok((_, p5)) => Ok(
                                                (Attribute::LanguageAttribute(lit), p5),
                                            ),
                                        }
                                    },
                                }
                            },
                        }
                    } else if is_inline {
                        Ok((Attribute::Inline, p2))
                    } else {
                        Err(ParseError::UnexpectedToken { at: pos, file: fid, expected: Expected::AttributeName })
                    };
                    match one {
                        Err(e) => Err(e),
                        Ok((attr, p5)) => {
                            let p6 = skip_ws(toks, p5);
                            if p6 < toks.len() && matches!(toks[p6], Token::AtSign) {
                                match attr_list(toks, p6, fid, src) {
                                    Err(e) => Err(e),
                                    Ok((rest, p7)) => {
                                        let out = prepend(attr, rest);
                                        Ok((out, p7))
                                    },
                                }
                            } else {
                                let mut out: Vec<Attribute> = Vec::new();
                                out.push(attr);
                                proof {
                                    assert(out@ =~= seq![attr]);
                                }
                                Ok((out, p6))
                            }
                        },
                    }
                }
            },
        }
    } else {
        Err(ParseError::UnexpectedToken { at: pos, file: fid, expected: Expected::AttributeName })
    }
}


// ---------------------------------------------------------------------------
// Filesystem-driven module resolution.
// A `module name;` statement names two candidate files; exactly one must be
// present in the in-memory file picture. Candidates already being parsed on
// this recursion frame are refused as a cycle. The recursion is bounded by
// the number of present files not yet on the guard.
// ---------------------------------------------------------------------------

/// The mutable state threaded through module resolution: the file store and
/// the recursion guard.
pub struct FsSt {
    pub loader: FileLoader,
    pub guard: RecursiveGuard,
}

/// The specification-level picture of that state.
pub struct SSt {
    pub loader: Seq<Seq<u8>>,
    pub guard: Seq<Seq<u8>>,
}

pub open spec fn sst_of(st: FsSt) -> SSt {
    SSt { loader: st.loader@, guard: st.guard@ }
}

/// How many present files are not yet on the guard: the bound on how much
/// deeper module resolution can recurse.
pub open spec fn unguarded_count(
    files: Seq<(Seq<u8>, Option<Seq<u8>>)>,
    guard: Seq<Seq<u8>>,
) -> nat
    decreases files.len(),
{
    if files.len() == 0 {
        0
    } else {
        (if files[0].1 is Some && !s_guard_contains(guard, files[0].0) {
            1nat
        } else {
            0nat
        }) + unguarded_count(files.drop_first(), guard)
    }
}

proof fn lemma_ug_monotone(
    files: Seq<(Seq<u8>, Option<Seq<u8>>)>,
    g1: Seq<Seq<u8>>,
    g2: Seq<Seq<u8>>,
)
    requires
        g1.is_prefix_of(g2),
    ensures
        unguarded_count(files, g2) <= unguarded_count(files, g1),
    decreases files.len(),
{
    if files.len() > 0 {
        lemma_ug_monotone(files.drop_first(), g1, g2);
        if s_guard_contains(g1, files[0].0) {
            let i = choose|i: int| 0 <= i < g1.len() && g1[i] == files[0].0;
            assert(g2[i] == g2.subrange(0, g1.len() as int)[i]);
            assert(s_guard_contains(g2, files[0].0));
        }
    }
}

proof fn lemma_ug_push_present(
    files: Seq<(Seq<u8>, Option<Seq<u8>>)>,
    guard: Seq<Seq<u8>>,
    path: Seq<u8>,
)
    requires
        s_lookup(files, path) matches Some(b) && b is Some,
        !s_guard_contains(guard, path),
    ensures
        unguarded_count(files, guard.push(path)) < unguarded_count(files, guard),
    decreases files.len(),
{
    let g2 = guard.push(path);
    assert(guard =~= g2.subrange(0, guard.len() as int));
    if files.len() > 0 {
        if files[0].0 == path {
            assert(files[0].1 is Some);
            assert(g2[guard.len() as int] == path);
            assert(s_guard_contains(g2, files[0].0));
            lemma_ug_monotone(files.drop_first(), guard, g2);
        } else {
            assert(s_lookup(files.drop_first(), path) == s_lookup(files, path));
            lemma_ug_push_present(files.drop_first(), guard, path);
            if s_guard_contains(guard, files[0].0) {
                let i = choose|i: int| 0 <= i < guard.len() && guard[i] == files[0].0;
                assert(g2[i] == guard[i]);
                assert(s_guard_contains(g2, files[0].0));
            }
        }
    }
}

/// The directory part of a path: the bytes before the last `/`, or `.` when
/// the path holds no separator.
pub open spec fn s_dirname(p: Seq<u8>) -> Seq<u8>
    decreases p.len(),
{
    if p.len() == 0 {
        seq!['.' as u8]
    } else if p[p.len() - 1] == '/' as u8 {
        p.subrange(0, p.len() - 1)
    } else {
        s_dirname(p.drop_last())
    }
}

/// Computes the directory part of a path.
pub fn dirname(p: &Vec<u8>) -> (r: Vec<u8>)
    ensures
        r@ == s_dirname(p@),
{
    let mut i = p.len();
    proof {
        assert(p@.subrange(0, p@.len() as int) =~= p@);
    }
    while i > 0
        invariant
            0 <= i <= p@.len(),
            s_dirname(p@) == s_dirname(p@.subrange(0, i as int)),
        decreases i,
    {
        proof {
            let q = p@.subrange(0, i as int);
            assert(q[i - 1] == p@[i - 1]);
            if q[i - 1] != '/' as u8 {
                assert(q.drop_last() =~= p@.subrange(0, i - 1));
            }
        }
        if p[i - 1] == '/' as u8 {
            let mut out: Vec<u8> = Vec::new();
            let mut j: usize = 0;
            while j < i - 1
                invariant
                    0 <= j <= i - 1,
                    i <= p@.len(),
                    out@ == p@.subrange(0, j as int),
                decreases i - j,
            {
                out.push(p[j]);
                j = j + 1;
                proof {
                    assert(out@ =~= p@.subrange(0, j as int));
                }
            }
            proof {
                let q = p@.subrange(0, i as int);
                assert(q[i - 1] == p@[i - 1]);
                assert(q.subrange(0, i - 1) =~= p@.subrange(0, i - 1));
            }
            return out;
        }
        i = i - 1;
    }
    proof {
        assert(p@.subrange(0, 0) =~= Seq::<u8>::empty());
    }
    let mut out: Vec<u8> = Vec::new();
    out.push('.' as u8);
    proof {
        assert(out@ =~= seq!['.' as u8]);
    }
    out
}

pub open spec fn lit_sep() -> Seq<u8> {
    seq!['/' as u8]
}

pub open spec fn lit_mod_pipec() -> Seq<u8> {
    seq![
        'm' as u8,
        'o' as u8,
        'd' as u8,
        '.' as u8,
        'p' as u8,
        'i' as u8,
        'p' as u8,
        'e' as u8,
        'c' as u8,
    ]
}

pub open spec fn lit_dot_pipec() -> Seq<u8> {
    seq!['.' as u8, 'p' as u8, 'i' as u8, 'p' as u8, 'e' as u8, 'c' as u8]
}

/// The directory a module's own subdirectory candidate lives in.
pub open spec fn s_mod_dir(dir: Seq<u8>, name: Seq<u8>) -> Seq<u8> {
    dir + lit_sep() + name
}

/// Candidate A of a module statement: `dir/name/mod.pipec`.
pub open spec fn s_candidate_a(dir: Seq<u8>, name: Seq<u8>) -> Seq<u8> {
    dir + lit_sep() + name + lit_sep() + lit_mod_pipec()
}

/// Candidate B of a module statement: `dir/name.pipec`.
pub open spec fn s_candidate_b(dir: Seq<u8>, name: Seq<u8>) -> Seq<u8> {
    dir + lit_sep() + name + lit_dot_pipec()
}

/// Builds `dir/name`.
pub fn mod_dir(dir: &Vec<u8>, name: &Vec<u8>) -> (r: Vec<u8>)
    ensures
        r@ == s_mod_dir(dir@, name@),
{
    let mut out = crate::span::clone_bytes(dir);
    out.push('/' as u8);
    let ghost mid = out@;
    proof {
        assert(mid =~= dir@ + lit_sep());
    }
    let out2 = crate::span::concat_bytes(&out, name);
    out2
}

/// Builds candidate A, `dir/name/mod.pipec`.
pub fn candidate_a(dir: &Vec<u8>, name: &Vec<u8>) -> (r: Vec<u8>)
    ensures
        r@ == s_candidate_a(dir@, name@),
{
    let mut out = mod_dir(dir, name);
    out.push('/' as u8);
    out.push('m' as u8);
    out.push('o' as u8);
    out.push('d' as u8);
    out.push('.' as u8);
    out.push('p' as u8);
    out.push('i' as u8);
    out.push('p' as u8);
    out.push('e' as u8);
    out.push('c' as u8);
    proof {
        assert(out@ =~= s_candidate_a(dir@, name@));
    }
    out
}

/// Builds candidate B, `dir/name.pipec`.
pub fn candidate_b(dir: &Vec<u8>, name: &Vec<u8>) -> (r: Vec<u8>)
    ensures
        r@ == s_candidate_b(dir@, name@),
{
    let mut out = mod_dir(dir, name);
    out.push('.' as u8);
    out.push('p' as u8);
    out.push('i' as u8);
    out.push('p' as u8);
    out.push('e' as u8);
    out.push('c' as u8);
    proof {
        assert(out@ =~= s_candidate_b(dir@, name@));
    }
    out
}


/// Lifts a pure production's outcome into the state-threaded shape.
pub open spec fn s_lift(r: Result<(GNode, int), GParseError>, st: SSt) -> (Result<
    (GNode, int),
    GParseError,
>, SSt) {
    (r, st)
}

/// Top-level nodes until the closing brace (inside a module body) or the end
/// of input (at file level). `d` bounds how many more files module
/// resolution may enter.
pub open spec fn s_parse_nodes(
    toks: Seq<Token>,
    pos: int,
    st: SSt,
    files: Seq<(Seq<u8>, Option<Seq<u8>>)>,
    fid: FileId,
    src: Seq<u8>,
    dir: Seq<u8>,
    until_rbrace: bool,
    d: nat,
) -> (Result<(Seq<GNode>, int), GParseError>, SSt)
    decreases d, 0int, toks.len() - pos, 12int,
{
    let p = s_skip_ws(toks, pos);
    if !within(pos, p, toks.len() as int) {
        (Err(g_stuck(fid)), st)
    } else if until_rbrace && p < toks.len() && toks[p] == Token::RightCurly {
        (Ok((Seq::empty(), p + 1)), st)
    } else {
        match s_parse_value(toks, p, st, files, fid, src, dir, d) {
            (Err(e), st1) => (Err(e), st1),
            (Ok((node, p2)), st1) => {
                if node == GNode::EOF {
                    if until_rbrace {
                        (
                            Err(GParseError::UnexpectedEof { file: fid, expected: Expected::TopLevel }),
                            st1,
                        )
                    } else {
                        (Ok((Seq::empty(), p2)), st1)
                    }
                } else if p < p2 <= toks.len() {
                    match s_parse_nodes(toks, p2, st1, files, fid, src, dir, until_rbrace, d) {
                        (Err(e), st2) => (Err(e), st2),
                        (Ok((rest, p3)), st2) => (Ok((seq![node] + rest, p3)), st2),
                    }
                } else {
                    (Err(g_stuck(fid)), st1)
                }
            },
        }
    }
}

/// One top-level production, chosen on the first significant token; end of
/// input yields the end marker.
pub open spec fn s_parse_value(
    toks: Seq<Token>,
    pos: int,
    st: SSt,
    files: Seq<(Seq<u8>, Option<Seq<u8>>)>,
    fid: FileId,
    src: Seq<u8>,
    dir: Seq<u8>,
    d: nat,
) -> (Result<(GNode, int), GParseError>, SSt)
    decreases d, 0int, toks.len() - pos, 11int,
{
    let p = s_skip_ws(toks, pos);
    if !within(pos, p, toks.len() as int) {
        (Err(g_stuck(fid)), st)
    } else if p >= toks.len() {
        (Ok((GNode::EOF, p)), st)
    } else {
        match toks[p] {
            Token::UsingKeyword => s_lift(s_consume_using_keyword(toks, p, fid), st),
            Token::ModuleKeyword => s_consume_module_keyword(toks, p, st, files, fid, src, dir, d),
            Token::ComponentKeyword => s_lift(s_consume_component_keyword(toks, p, fid, src), st),
            Token::ViewportKeyword => s_lift(s_consume_viewport_keyword(toks, p, fid, src), st),
            Token::FunctionKeyword => s_lift(s_consume_function_keyword(toks, p, fid, src), st),
            Token::PublicKeyword => s_consume_public_keyword(toks, p, st, files, fid, src, dir, d),
            Token::TypeKeyword => s_lift(s_consume_type_keyword(toks, p, fid), st),
            Token::TraitKeyword => s_consume_trait_keyword(toks, p, st, files, fid, src, dir, d),
            Token::ImplementKeyword => s_consume_implement_keyword(
                toks,
                p,
                st,
                files,
                fid,
                src,
                dir,
                d,
            ),
            Token::AtSign => s_consume_attributes(toks, p, st, files, fid, src, dir, d),
            _ => (
                (
                    Err(GParseError::UnexpectedToken { at: p as usize, file: fid, expected: Expected::TopLevel }),
                    st,
                )
            ),
        }
    }
}

/// `module name ;` or `module name { ... }`.
pub open spec fn s_consume_module_keyword(
    toks: Seq<Token>,
    pos: int,
    st: SSt,
    files: Seq<(Seq<u8>, Option<Seq<u8>>)>,
    fid: FileId,
    src: Seq<u8>,
    dir: Seq<u8>,
    d: nat,
) -> (Result<(GNode, int), GParseError>, SSt)
    decreases d, 0int, toks.len() - pos, 10int,
{
    if 0 <= pos < toks.len() && toks[pos] == Token::ModuleKeyword {
        match s_must_ident(toks, pos + 1, fid) {
            Err(e) => (Err(e), st),
            Ok((name, p2)) => {
                if !(pos < p2 <= toks.len()) {
                    (Err(g_stuck(fid)), st)
                } else {
                    let p3 = s_skip_ws(toks, p2);
                    if !within(p2, p3, toks.len() as int) {
                        (Err(g_stuck(fid)), st)
                    } else if p3 < toks.len() && toks[p3] == Token::Semicolon {
                        s_consume_node_from_fs(toks, p3, name, st, files, fid, src, dir, d)
                    } else if p3 < toks.len() && toks[p3] == Token::LeftCurly {
                        s_consume_mod_block(toks, p3, name, st, files, fid, src, dir, d)
                    } else if p3 < toks.len() {
                        (
                            Err(GParseError::UnexpectedToken {
                                at: p3 as usize,
                                file: fid,
                                expected: Expected::AToken(Token::Semicolon),
                            }),
                            st,
                        )
                    } else {
                        (
                            Err(GParseError::UnexpectedEof {
                                file: fid,
                                expected: Expected::AToken(Token::Semicolon),
                            }),
                            st,
                        )
                    }
                }
            },
        }
    } else {
        (
            Err(GParseError::UnexpectedToken { at: pos as usize, file: fid, expected: Expected::TopLevel }),
            st,
        )
    }
}

/// An inline submodule body; its tree keeps the current file's id.
pub open spec fn s_consume_mod_block(
    toks: Seq<Token>,
    pos: int,
    name: Span,
    st: SSt,
    files: Seq<(Seq<u8>, Option<Seq<u8>>)>,
    fid: FileId,
    src: Seq<u8>,
    dir: Seq<u8>,
    d: nat,
) -> (Result<(GNode, int), GParseError>, SSt)
    decreases d, 0int, toks.len() - pos, 9int,
{
    if 0 <= pos < toks.len() && toks[pos] == Token::LeftCurly {
        match s_parse_nodes(toks, pos + 1, st, files, fid, src, dir, true, d) {
            (Err(e), st1) => (Err(e), st1),
            (Ok((nodes, p2)), st1) => (
                (Ok((GNode::ModStatement { name, tree: GTree { nodes, id: fid } }, p2)), st1)
            ),
        }
    } else {
        (
            Err(GParseError::UnexpectedToken {
                at: pos as usize,
                file: fid,
                expected: Expected::AToken(Token::LeftCurly),
            }),
            st,
        )
    }
}

/// Resolves `module name ;` against the file picture: both candidate paths
/// go onto the guard; a guarded candidate is a cycle, an unknown one stops
/// compilation until the caller records it, both present is ambiguous,
/// neither is missing; the one present file is parsed as the module's body.
pub open spec fn s_consume_node_from_fs(
    toks: Seq<Token>,
    pos: int,
    name: Span,
    st: SSt,
    files: Seq<(Seq<u8>, Option<Seq<u8>>)>,
    fid: FileId,
    src: Seq<u8>,
    dir: Seq<u8>,
    d: nat,
) -> (Result<(GNode, int), GParseError>, SSt)
    decreases d, 0int, toks.len() - pos, 9int,
{
    if !(0 <= pos < toks.len()) {
        (Err(g_stuck(fid)), st)
    } else if !(name.begin <= name.end <= src.len()) {
        (
            Err(GParseError::UnexpectedToken { at: pos as usize, file: fid, expected: Expected::NameSpan }),
            st,
        )
    } else {
        let p2 = pos + 1;
        let nm = src.subrange(name.begin as int, name.end as int);
        let c1 = s_candidate_a(dir, nm);
        let c2 = s_candidate_b(dir, nm);
        if s_guard_contains(st.guard, c1) || s_guard_contains(st.guard, c2) {
            (Err(GParseError::ModuleCycle { candidate_a: c1, candidate_b: c2 }), st)
        } else {
            let st1 = SSt { loader: st.loader, guard: st.guard.push(c1).push(c2) };
            let l1 = s_lookup(files, c1);
            let l2 = s_lookup(files, c2);
            if l1 is None {
                (Err(GParseError::NeedFile { path: c1 }), st1)
            } else if l2 is None {
                (Err(GParseError::NeedFile { path: c2 }), st1)
            } else if l1.unwrap() is Some && l2.unwrap() is Some {
                (Err(GParseError::AmbiguousModule { candidate_a: c1, candidate_b: c2 }), st1)
            } else if l1.unwrap() is Some {
                if d == 0 {
                    (Err(g_stuck(fid)), st1)
                } else {
                    match s_parse_module_file(files, st1, c1, s_mod_dir(dir, nm), (d - 1) as nat) {
                        (Err(e), st2) => (Err(e), st2),
                        (Ok(tree), st2) => (Ok((GNode::ModStatement { name, tree }, p2)), st2),
                    }
                }
            } else if l2.unwrap() is Some {
                if d == 0 {
                    (Err(g_stuck(fid)), st1)
                } else {
                    match s_parse_module_file(files, st1, c2, dir, (d - 1) as nat) {
                        (Err(e), st2) => (Err(e), st2),
                        (Ok(tree), st2) => (Ok((GNode::ModStatement { name, tree }, p2)), st2),
                    }
                }
            } else {
                (Err(GParseError::MissingModule { candidate_a: c1, candidate_b: c2 }), st1)
            }
        }
    }
}

/// Opens, lexes and parses one module file to its end.
pub open spec fn s_parse_module_file(
    files: Seq<(Seq<u8>, Option<Seq<u8>>)>,
    st: SSt,
    path: Seq<u8>,
    dir2: Seq<u8>,
    d: nat,
) -> (Result<GTree, GParseError>, SSt)
    decreases d, 1int, 0int, 0int,
{
    match s_lookup(files, path) {
        None => (Err(GParseError::NeedFile { path }), st),
        Some(None) => (
            (Err(GParseError::MissingModule { candidate_a: path, candidate_b: path }), st)
        ),
        Some(Some(bytes)) => {
            let newfid = FileId(st.loader.len() as usize);
            let st1 = SSt { loader: st.loader.push(bytes), guard: st.guard };
            match crate::tokenizer::s_tokens(bytes, 0) {
                crate::tokenizer::STokens::Fail(e) => (
                    (Err(GParseError::Lex { file: newfid, err: e }), st1)
                ),
                crate::tokenizer::STokens::Toks(ts) => {
                    match s_parse_nodes(ts, 0, st1, files, newfid, bytes, dir2, false, d) {
                        (Err(e), st2) => (Err(e), st2),
                        (Ok((nodes, _)), st2) => (Ok(GTree { nodes, id: newfid }), st2),
                    }
                },
            }
        },
    }
}

/// `trait name generics? ( : bounds )? { ... }`.
pub open spec fn s_consume_trait_keyword(
    toks: Seq<Token>,
    pos: int,
    st: SSt,
    files: Seq<(Seq<u8>, Option<Seq<u8>>)>,
    fid: FileId,
    src: Seq<u8>,
    dir: Seq<u8>,
    d: nat,
) -> (Result<(GNode, int), GParseError>, SSt)
    decreases d, 0int, toks.len() - pos, 10int,
{
    if 0 <= pos < toks.len() && toks[pos] == Token::TraitKeyword {
        match s_must_ident(toks, pos + 1, fid) {
            Err(e) => (Err(e), st),
            Ok((name, p2)) => {
                if !(pos < p2 <= toks.len()) {
                    (Err(g_stuck(fid)), st)
                } else {
                    match s_consume_generics(toks, p2, fid) {
                        Err(e) => (Err(e), st),
                        Ok((generics, p3)) => {
                            if !(p2 <= p3 <= toks.len()) {
                                (Err(g_stuck(fid)), st)
                            } else {
                                let p4 = s_skip_ws(toks, p3);
                                if !within(p3, p4, toks.len() as int) {
                                    (Err(g_stuck(fid)), st)
                                } else {
                                    let with_sup = (if p4 < toks.len() && toks[p4]
                                        == Token::Colon {
                                        match s_consume_traits(toks, p4 + 1, fid) {
                                            Err(e) => Err(e),
                                            Ok((tr, p5)) => {
                                                if !(p4 < p5 <= toks.len()) {
                                                    Err(g_stuck(fid))
                                                } else {
                                                    Ok((tr, p5))
                                                }
                                            },
                                        }
                                    } else {
                                        Ok((Seq::<GPath>::empty(), p4))
                                    });
                                    match with_sup {
                                        Err(e) => (Err(e), st),
                                        Ok((supertraits, p5)) => {
                                            match s_must(toks, p5, fid, Token::LeftCurly) {
                                                Err(e) => (Err(e), st),
                                                Ok((_, p6)) => {
                                                    if !(pos < p6 <= toks.len()) {
                                                        (Err(g_stuck(fid)), st)
                                                    } else {
                                                        match s_parse_nodes(
                                                            toks,
                                                            p6,
                                                            st,
                                                            files,
                                                            fid,
                                                            src,
                                                            dir,
                                                            true,
                                                            d,
                                                        ) {
                                                            (Err(e), st1) => (Err(e), st1),
                                                            (Ok((nodes, p7)), st1) => (
                                                                (
                                                                    Ok(
                                                                        (
                                                                            GNode::TraitDeclaration {
                                                                                name,
                                                                                generics,
                                                                                supertraits,
                                                                                tree: GTree { nodes, id: fid },
                                                                            },
                                                                            p7,
                                                                        ),
                                                                    ),
                                                                    st1,
                                                                )
                                                            ),
                                                        }
                                                    }
                                                },
                                            }
                                        },
                                    }
                                }
                            }
                        },
                    }
                }
            },
        }
    } else {
        (
            Err(GParseError::UnexpectedToken { at: pos as usize, file: fid, expected: Expected::TopLevel }),
            st,
        )
    }
}

/// `implement generics? path ( for path )? { ... }`.
pub open spec fn s_consume_implement_keyword(
    toks: Seq<Token>,
    pos: int,
    st: SSt,
    files: Seq<(Seq<u8>, Option<Seq<u8>>)>,
    fid: FileId,
    src: Seq<u8>,
    dir: Seq<u8>,
    d: nat,
) -> (Result<(GNode, int), GParseError>, SSt)
    decreases d, 0int, toks.len() - pos, 10int,
{
    if 0 <= pos < toks.len() && toks[pos] == Token::ImplementKeyword {
        match s_consume_generics(toks, pos + 1, fid) {
            Err(e) => (Err(e), st),
            Ok((generics, p2)) => {
                if !(pos < p2 <= toks.len()) {
                    (Err(g_stuck(fid)), st)
                } else {
                    let p3 = s_skip_ws(toks, p2);
                    if !within(p2, p3, toks.len() as int) {
                        (Err(g_stuck(fid)), st)
                    } else {
                        match s_consume_a_path(toks, p3, fid) {
                            Err(e) => (Err(e), st),
                            Ok((first, p4)) => {
                                if !(p3 <= p4 <= toks.len()) {
                                    (Err(g_stuck(fid)), st)
                                } else {
                                    let p5 = s_skip_ws(toks, p4);
                                    if !within(p4, p5, toks.len() as int) {
                                        (Err(g_stuck(fid)), st)
                                    } else if p5 < toks.len() && toks[p5] == Token::ForKeyword {
                                        let p6 = s_skip_ws(toks, p5 + 1);
                                        if !within(p5 + 1, p6, toks.len() as int) {
                                            (Err(g_stuck(fid)), st)
                                        } else {
                                            match s_consume_a_path(toks, p6, fid) {
                                                Err(e) => (Err(e), st),
                                                Ok((second, p7)) => {
                                                    if !(p6 <= p7 <= toks.len()) {
                                                        (Err(g_stuck(fid)), st)
                                                    } else {
                                                        match s_must(toks, p7, fid, Token::LeftCurly) {
                                                            Err(e) => (Err(e), st),
                                                            Ok((_, p8)) => {
                                                                if !(pos < p8 <= toks.len()) {
                                                                    (Err(g_stuck(fid)), st)
                                                                } else {
                                                                    match s_parse_nodes(
                                                                        toks,
                                                                        p8,
                                                                        st,
                                                                        files,
                                                                        fid,
                                                                        src,
                                                                        dir,
                                                                        true,
                                                                        d,
                                                                    ) {
                                                                        (Err(e), st1) => (Err(e), st1),
                                                                        (Ok((nodes, p9)), st1) => (
                                                                            (
                                                                                Ok(
                                                                                    (
                                                                                        GNode::ImplementBlock {
                                                                                            generics,
                                                                                            traitpath: Some(first),
                                                                                            implementor: second,
                                                                                            block: GTree { nodes, id: fid },
                                                                                        },
                                                                                        p9,
                                                                                    ),
                                                                                ),
                                                                                st1,
                                                                            )
                                                                        ),
                                                                    }
                                                                }
                                                            },
                                                        }
                                                    }
                                                },
                                            }
                                        }
                                    } else if p5 < toks.len() && toks[p5] == Token::LeftCurly {
                                        if !(pos < p5 + 1 <= toks.len()) {
                                            (Err(g_stuck(fid)), st)
                                        } else {
                                            match s_parse_nodes(
                                                toks,
                                                p5 + 1,
                                                st,
                                                files,
                                                fid,
                                                src,
                                                dir,
                                                true,
                                                d,
                                            ) {
                                                (Err(e), st1) => (Err(e), st1),
                                                (Ok((nodes, p9)), st1) => (
                                                    (
                                                        Ok(
                                                            (
                                                                GNode::ImplementBlock {
                                                                    generics,
                                                                    traitpath: None,
                                                                    implementor: first,
                                                                    block: GTree { nodes, id: fid },
                                                                },
                                                                p9,
                                                            ),
                                                        ),
                                                        st1,
                                                    )
                                                ),
                                            }
                                        }
                                    } else if p5 < toks.len() {
                                        (
                                            Err(GParseError::UnexpectedToken {
                                                at: p5 as usize,
                                                file: fid,
                                                expected: Expected::AToken(Token::LeftCurly),
                                            }),
                                            st,
                                        )
                                    } else {
                                        (
                                            Err(GParseError::UnexpectedEof {
                                                file: fid,
                                                expected: Expected::AToken(Token::LeftCurly),
                                            }),
                                            st,
                                        )
                                    }
                                }
                            },
                        }
                    }
                }
            },
        }
    } else {
        (
            Err(GParseError::UnexpectedToken { at: pos as usize, file: fid, expected: Expected::TopLevel }),
            st,
        )
    }
}

/// `public <top-level>`.
pub open spec fn s_consume_public_keyword(
    toks: Seq<Token>,
    pos: int,
    st: SSt,
    files: Seq<(Seq<u8>, Option<Seq<u8>>)>,
    fid: FileId,
    src: Seq<u8>,
    dir: Seq<u8>,
    d: nat,
) -> (Result<(GNode, int), GParseError>, SSt)
    decreases d, 0int, toks.len() - pos, 10int,
{
    if 0 <= pos < toks.len() && toks[pos] == Token::PublicKeyword {
        match s_parse_value(toks, pos + 1, st, files, fid, src, dir, d) {
            (Err(e), st1) => (Err(e), st1),
            (Ok((node, p2)), st1) => (Ok((GNode::Public(Box::new(node)), p2)), st1),
        }
    } else {
        (
            Err(GParseError::UnexpectedToken { at: pos as usize, file: fid, expected: Expected::TopLevel }),
            st,
        )
    }
}

/// One or more attributes, then the production they decorate.
pub open spec fn s_consume_attributes(
    toks: Seq<Token>,
    pos: int,
    st: SSt,
    files: Seq<(Seq<u8>, Option<Seq<u8>>)>,
    fid: FileId,
    src: Seq<u8>,
    dir: Seq<u8>,
    d: nat,
) -> (Result<(GNode, int), GParseError>, SSt)
    decreases d, 0int, toks.len() - pos, 10int,
{
    match s_attr_list(toks, pos, fid, src) {
        Err(e) => (Err(e), st),
        Ok((attrs, p2)) => {
            if !(pos < p2 <= toks.len()) {
                (Err(g_stuck(fid)), st)
            } else {
                match s_parse_value(toks, p2, st, files, fid, src, dir, d) {
                    (Err(e), st1) => (Err(e), st1),
                    (Ok((node, p3)), st1) => (
                        (Ok((GNode::Attributed(attrs, Box::new(node)), p3)), st1)
                    ),
                }
            }
        },
    }
}


/// On success the cursor moved strictly forward unless the parse hit the end
/// of input.
pub open spec fn moved_unless_eof(r: Result<(ASTNode, usize), ParseError>, pos: int) -> bool {
    match r {
        Ok((v, p)) => !(v is EOF) ==> pos < p as int,
        Err(_) => true,
    }
}

/// An exec state-threaded outcome agrees with a specification-level one, for
/// one tree node.
pub open spec fn nres_m(
    r: (Result<(ASTNode, usize), ParseError>, FsSt),
    s: (Result<(GNode, int), GParseError>, SSt),
) -> bool {
    &&& (match (r.0, s.0) {
        (Ok((v, p)), Ok((w, q))) => node_models(v, w) && p as int == q,
        (Err(a), Err(b)) => perr_models(a, b),
        _ => false,
    })
    &&& r.1.loader@ == s.1.loader
    &&& r.1.guard@ == s.1.guard
}

/// The same, for a list of nodes.
pub open spec fn nsres_m(
    r: (Result<(Vec<ASTNode>, usize), ParseError>, FsSt),
    s: (Result<(Seq<GNode>, int), GParseError>, SSt),
) -> bool {
    &&& (match (r.0, s.0) {
        (Ok((v, p)), Ok((w, q))) => nodes_models(v@, w) && p as int == q,
        (Err(a), Err(b)) => perr_models(a, b),
        _ => false,
    })
    &&& r.1.loader@ == s.1.loader
    &&& r.1.guard@ == s.1.guard
}

/// The same, for a whole module file's tree.
pub open spec fn tres_m(
    r: (Result<ASTTree, ParseError>, FsSt),
    s: (Result<GTree, GParseError>, SSt),
) -> bool {
    &&& (match (r.0, s.0) {
        (Ok(v), Ok(w)) => tree_models(v, w),
        (Err(a), Err(b)) => perr_models(a, b),
        _ => false,
    })
    &&& r.1.loader@ == s.1.loader
    &&& r.1.guard@ == s.1.guard
}

proof fn lemma_prefix_trans(a: Seq<Seq<u8>>, b: Seq<Seq<u8>>, c: Seq<Seq<u8>>)
    requires
        a.is_prefix_of(b),
        b.is_prefix_of(c),
    ensures
        a.is_prefix_of(c),
{
    assert(a =~= c.subrange(0, a.len() as int)) by {
        assert forall|i: int| 0 <= i < a.len() implies a[i] == c[i] by {
            assert(a[i] == b.subrange(0, a.len() as int)[i]);
            assert(b[i] == c.subrange(0, b.len() as int)[i]);
        }
    }
}

proof fn lemma_push_prefix(g: Seq<Seq<u8>>, x: Seq<u8>)
    ensures
        g.is_prefix_of(g.push(x)),
{
    assert(g =~= g.push(x).subrange(0, g.len() as int));
}

proof fn lemma_prefix_refl(g: Seq<Seq<u8>>)
    ensures
        g.is_prefix_of(g),
{
    assert(g =~= g.subrange(0, g.len() as int));
}

/// Reads top-level nodes until the closing brace (in a module body) or the
/// end of input (at file level). The ghost fuel `d` bounds how many more
/// files module resolution may enter; any value above the count of present,
/// unguarded files works.
#[verifier::rlimit(100)]
#[verifier::spinoff_prover]
pub fn parse_nodes(
    toks: &Vec<Token>,
    pos: usize,
    st: FsSt,
    files: &SourceTree,
    fid: FileId,
    src: &Vec<u8>,
    dir: &Vec<u8>,
    until_rbrace: bool,
    Ghost(d): Ghost<nat>,
) -> (r: (Result<(Vec<ASTNode>, usize), ParseError>, FsSt))
    requires
        pos <= toks.len(),
        d > unguarded_count(files@, st.guard@),
    ensures
        st.guard@.is_prefix_of(r.1.guard@),
        stays(r.0, pos as int, toks@.len() as int),
        nsres_m(
            r,
            s_parse_nodes(toks@, pos as int, sst_of(st), files@, fid, src@, dir@, until_rbrace, d),
        ),
    decreases unguarded_count(files@, st.guard@), 0int, toks@.len() - pos, 12int,
{
    proof {
        lemma_prefix_refl(st.guard@);
    }
    let p = skip_ws(toks, pos);
    if until_rbrace && p < toks.len() && matches!(toks[p], Token::RightCurly) {
        let out: Vec<ASTNode> = Vec::new();
        proof {
            assert(nodes_models(out@, Seq::<GNode>::empty()));
        }
        (Ok((out, p + 1)), st)
    } else {
        let (r1, st1) = parse_value(toks, p, st, files, fid, src, dir, Ghost(d));
        match r1 {
            Err(e) => (Err(e), st1),
            Ok((node, p2)) => {
                if matches!(node, ASTNode::EOF) {
                    proof {
                        let s1 = s_parse_value(toks@, p as int, sst_of(st), files@, fid, src@, dir@, d);
                        if let (Ok((gnode, _)), _) = s1 {
                            assert(gnode == GNode::EOF);
                        }
                    }
                    if until_rbrace {
                        (
                            (
                                Err(ParseError::UnexpectedEof {
                                    file: fid,
                                    expected: Expected::TopLevel,
                                }),
                                st1,
                            )
                        )
                    } else {
                        let out: Vec<ASTNode> = Vec::new();
                        proof {
                            assert(nodes_models(out@, Seq::<GNode>::empty()));
                        }
                        (Ok((out, p2)), st1)
                    }
                } else {
                    proof {
                        lemma_ug_monotone(files@, st.guard@, st1.guard@);
                        let s1 = s_parse_value(toks@, p as int, sst_of(st), files@, fid, src@, dir@, d);
                        if let (Ok((gnode, _)), _) = s1 {
                            assert(gnode != GNode::EOF);
                        }
                    }
                    let (r2, st2) = parse_nodes(
                        toks,
                        p2,
                        st1,
                        files,
                        fid,
                        src,
                        dir,
                        until_rbrace,
                        Ghost(d),
                    );
                    proof {
                        lemma_prefix_trans(st.guard@, st1.guard@, st2.guard@);
                    }
                    match r2 {
                        Err(e) => (Err(e), st2),
                        Ok((rest, p3)) => {
                            let out = prepend(node, rest);
                            proof {
                                let s1 = s_parse_value(
                                    toks@,
                                    p as int,
                                    sst_of(st),
                                    files@,
                                    fid,
                                    src@,
                                    dir@,
                                    d,
                                );
                                if let (Ok((gnode, q2)), sst1) = s1 {
                                    let srest = s_parse_nodes(
                                        toks@,
                                        q2,
                                        sst1,
                                        files@,
                                        fid,
                                        src@,
                                        dir@,
                                        until_rbrace,
                                        d,
                                    );
                                    if let (Ok((grest, _)), _) = srest {
                                        let gs = seq![gnode] + grest;
                                        assert forall|i: int|
                                            0 <= i < gs.len() implies node_models(
                                            out@[i],
                                            #[trigger] gs[i],
                                        ) by {
                                            if i > 0 {
                                                assert(gs[i] == grest[i - 1]);
                                                assert(out@[i] == rest@[i - 1]);
                                            }
                                        }
                                    }
                                }
                            }
                            (Ok((out, p3)), st2)
                        },
                    }
                }
            },
        }
    }
}

/// Reads one top-level production; at the end of input it yields the end
/// marker node.
#[verifier::rlimit(100)]
#[verifier::spinoff_prover]
pub fn parse_value(
    toks: &Vec<Token>,
    pos: usize,
    st: FsSt,
    files: &SourceTree,
    fid: FileId,
    src: &Vec<u8>,
    dir: &Vec<u8>,
    Ghost(d): Ghost<nat>,
) -> (r: (Result<(ASTNode, usize), ParseError>, FsSt))
    requires
        pos <= toks.len(),
        d > unguarded_count(files@, st.guard@),
    ensures
        st.guard@.is_prefix_of(r.1.guard@),
        stays(r.0, pos as int, toks@.len() as int),
        moved_unless_eof(r.0, pos as int),
        nres_m(r, s_parse_value(toks@, pos as int, sst_of(st), files@, fid, src@, dir@, d)),
    decreases unguarded_count(files@, st.guard@), 0int, toks@.len() - pos, 11int,
{
    let p = skip_ws(toks, pos);
    proof {
        lemma_prefix_refl(st.guard@);
    }
    if p >= toks.len() {
        (Ok((ASTNode::EOF, p)), st)
    } else {
        match toks[p] {
            Token::UsingKeyword => {
                let r0 = consume_using_keyword(toks, p, fid);
                (r0, st)
            },
            Token::ModuleKeyword => consume_module_keyword(toks, p, st, files, fid, src, dir, Ghost(d)),
            Token::ComponentKeyword => {
                let r0 = consume_component_keyword(toks, p, fid, src);
                (r0, st)
            },
            Token::ViewportKeyword => {
                let r0 = consume_viewport_keyword(toks, p, fid, src);
                (r0, st)
            },
            Token::FunctionKeyword => {
                let r0 = consume_function_keyword(toks, p, fid, src);
                (r0, st)
            },
            Token::PublicKeyword => consume_public_keyword(toks, p, st, files, fid, src, dir, Ghost(d)),
            Token::TypeKeyword => {
                let r0 = consume_type_keyword(toks, p, fid);
                (r0, st)
            },
            Token::TraitKeyword => consume_trait_keyword(toks, p, st, files, fid, src, dir, Ghost(d)),
            Token::ImplementKeyword => consume_implement_keyword(
                toks,
                p,
                st,
                files,
                fid,
                src,
                dir,
                Ghost(d),
            ),
            Token::AtSign => consume_attributes(toks, p, st, files, fid, src, dir, Ghost(d)),
            _ => (
                (
                    Err(ParseError::UnexpectedToken { at: p, file: fid, expected: Expected::TopLevel }),
                    st,
                )
            ),
        }
    }
}

/// Reads a `module` statement: an inline body or a filesystem-resolved one.
#[verifier::rlimit(100)]
#[verifier::spinoff_prover]
pub fn consume_module_keyword(
    toks: &Vec<Token>,
    pos: usize,
    st: FsSt,
    files: &SourceTree,
    fid: FileId,
    src: &Vec<u8>,
    dir: &Vec<u8>,
    Ghost(d): Ghost<nat>,
) -> (r: (Result<(ASTNode, usize), ParseError>, FsSt))
    requires
        pos <= toks.len(),
        d > unguarded_count(files@, st.guard@),
    ensures
        st.guard@.is_prefix_of(r.1.guard@),
        stays(r.0, pos as int, toks@.len() as int),
        moved(r.0, pos as int, toks@.len() as int),
        nres_m(
            r,
            s_consume_module_keyword(toks@, pos as int, sst_of(st), files@, fid, src@, dir@, d),
        ),
    decreases unguarded_count(files@, st.guard@), 0int, toks@.len() - pos, 10int,
{
    proof {
        lemma_prefix_refl(st.guard@);
    }
    if pos < toks.len() && matches!(toks[pos], Token::ModuleKeyword) {
        match must_ident(toks, pos + 1, fid) {
            Err(e) => (Err(e), st),
            Ok((name, p2)) => {
                let p3 = skip_ws(toks, p2);
                if p3 < toks.len() && matches!(toks[p3], Token::Semicolon) {
                    consume_node_from_fs(toks, p3, name, st, files, fid, src, dir, Ghost(d))
                } else if p3 < toks.len() && matches!(toks[p3], Token::LeftCurly) {
                    consume_mod_block(toks, p3, name, st, files, fid, src, dir, Ghost(d))
                } else if p3 < toks.len() {
                    (
                        (
                            Err(ParseError::UnexpectedToken {
                                at: p3,
                                file: fid,
                                expected: Expected::AToken(Token::Semicolon),
                            }),
                            st,
                        )
                    )
                } else {
                    (
                        (
                            Err(ParseError::UnexpectedEof {
                                file: fid,
                                expected: Expected::AToken(Token::Semicolon),
                            }),
                            st,
                        )
                    )
                }
            },
        }
    } else {
        (
            (Err(ParseError::UnexpectedToken { at: pos, file: fid, expected: Expected::TopLevel }), st)
        )
    }
}

/// Reads an inline submodule body.
#[verifier::rlimit(100)]
#[verifier::spinoff_prover]
pub fn consume_mod_block(
    toks: &Vec<Token>,
    pos: usize,
    name: Span,
    st: FsSt,
    files: &SourceTree,
    fid: FileId,
    src: &Vec<u8>,
    dir: &Vec<u8>,
    Ghost(d): Ghost<nat>,
) -> (r: (Result<(ASTNode, usize), ParseError>, FsSt))
    requires
        pos <= toks.len(),
        d > unguarded_count(files@, st.guard@),
    ensures
        st.guard@.is_prefix_of(r.1.guard@),
        stays(r.0, pos as int, toks@.len() as int),
        moved(r.0, pos as int, toks@.len() as int),
        nres_m(
            r,
            s_consume_mod_block(toks@, pos as int, name, sst_of(st), files@, fid, src@, dir@, d),
        ),
    decreases unguarded_count(files@, st.guard@), 0int, toks@.len() - pos, 9int,
{
    proof {
        lemma_prefix_refl(st.guard@);
    }
    if pos < toks.len() && matches!(toks[pos], Token::LeftCurly) {
        let (r1, st1) = parse_nodes(toks, pos + 1, st, files, fid, src, dir, true, Ghost(d));
        match r1 {
            Err(e) => (Err(e), st1),
            Ok((nodes, p2)) => {
                let tree = ASTTree::new(nodes, fid);
                proof {
                    let s1 = s_parse_nodes(
                        toks@,
                        pos + 1,
                        sst_of(st),
                        files@,
                        fid,
                        src@,
                        dir@,
                        true,
                        d,
                    );
                    if let (Ok((gnodes, _)), _) = s1 {
                        let gt = GTree { nodes: gnodes, id: fid };
                        assert(tree_models(tree, gt));
                        assert(node_models(
                            ASTNode::ModStatement { name, tree },
                            GNode::ModStatement { name, tree: gt },
                        ));
                    }
                }
                (Ok((ASTNode::ModStatement { name, tree }, p2)), st1)
            },
        }
    } else {
        (
            (
                Err(ParseError::UnexpectedToken {
                    at: pos,
                    file: fid,
                    expected: Expected::AToken(Token::LeftCurly),
                }),
                st,
            )
        )
    }
}

/// Resolves `module name ;` against the file picture. Both candidate paths go
/// on the guard; a guarded candidate is refused as a cycle before anything is
/// read.
#[verifier::rlimit(100)]
#[verifier::spinoff_prover]
pub fn consume_node_from_fs(
    toks: &Vec<Token>,
    pos: usize,
    name: Span,
    st: FsSt,
    files: &SourceTree,
    fid: FileId,
    src: &Vec<u8>,
    dir: &Vec<u8>,
    Ghost(d): Ghost<nat>,
) -> (r: (Result<(ASTNode, usize), ParseError>, FsSt))
    requires
        pos <= toks.len(),
        d > unguarded_count(files@, st.guard@),
    ensures
        st.guard@.is_prefix_of(r.1.guard@),
        stays(r.0, pos as int, toks@.len() as int),
        moved(r.0, pos as int, toks@.len() as int),
        nres_m(
            r,
            s_consume_node_from_fs(
                toks@,
                pos as int,
                name,
                sst_of(st),
                files@,
                fid,
                src@,
                dir@,
                d,
            ),
        ),
    decreases unguarded_count(files@, st.guard@), 0int, toks@.len() - pos, 9int,
{
    proof {
        lemma_prefix_refl(st.guard@);
    }
    if !(pos < toks.len()) {
        return (
            (Err(ParseError::UnexpectedEof { file: fid, expected: Expected::TopLevel }), st)
        );
    }
    if !(name.begin <= name.end && name.end <= src.len()) {
        return (
            (Err(ParseError::UnexpectedToken { at: pos, file: fid, expected: Expected::NameSpan }), st)
        );
    }
    let p2 = pos + 1;
    let nm = crate::span::Span { begin: name.begin, end: name.end }.parse(src.as_slice());
    let nm = vstd::slice::slice_to_vec(nm);
    proof {
        assert(nm@ == src@.subrange(name.begin as int, name.end as int));
    }
    let c1 = candidate_a(dir, &nm);
    let c2 = candidate_b(dir, &nm);
    if st.guard.contains(&c1) || st.guard.contains(&c2) {
        let err = ParseError::ModuleCycle { candidate_a: c1, candidate_b: c2 };
        return (Err(err), st);
    }
    let mut st1 = st;
    let ghost g0 = st1.guard@;
    let ghost c1v = c1@;
    let ghost c2v = c2@;
    let c1b = crate::span::clone_bytes(&c1);
    let c2b = crate::span::clone_bytes(&c2);
    st1.guard.push(c1b);
    st1.guard.push(c2b);
    proof {
        lemma_push_prefix(g0, c1v);
        lemma_push_prefix(g0.push(c1v), c2v);
        lemma_prefix_trans(g0, g0.push(c1v), g0.push(c1v).push(c2v));
        lemma_ug_monotone(files@, g0, g0.push(c1v));
        lemma_ug_monotone(files@, g0.push(c1v), st1.guard@);
        // the two candidates always differ: candidate A is four bytes longer
        assert(c1v.len() == c2v.len() + 4);
    }
    let l1 = files.lookup(&c1);
    let l2 = files.lookup(&c2);
    match (l1, l2) {
        (FileStatus::Unknown, _) => (Err(ParseError::NeedFile { path: c1 }), st1),
        (_, FileStatus::Unknown) => (Err(ParseError::NeedFile { path: c2 }), st1),
        (FileStatus::Present(_), FileStatus::Present(_)) => (
            (Err(ParseError::AmbiguousModule { candidate_a: c1, candidate_b: c2 }), st1)
        ),
        (FileStatus::Present(_), FileStatus::Absent) => {
            proof {
                lemma_ug_push_present(files@, g0, c1v);
                lemma_ug_monotone(files@, g0.push(c1v), st1.guard@);
            }
            let dir2 = mod_dir(dir, &nm);
            let (rt, st2) = parse_module_file(files, st1, c1, dir2, Ghost((d - 1) as nat));
            proof {
                lemma_prefix_trans(g0, g0.push(c1v).push(c2v), st2.guard@);
            }
            match rt {
                Err(e) => (Err(e), st2),
                Ok(tree) => (Ok((ASTNode::ModStatement { name, tree }, p2)), st2),
            }
        },
        (FileStatus::Absent, FileStatus::Present(_)) => {
            proof {
                assert(!s_guard_contains(g0.push(c1v), c2v)) by {
                    assert forall|i: int|
                        0 <= i < g0.push(c1v).len() implies g0.push(c1v)[i] != c2v by {
                        if i < g0.len() {
                            assert(g0.push(c1v)[i] == g0[i]);
                        }
                    }
                }
                lemma_ug_push_present(files@, g0.push(c1v), c2v);
                lemma_ug_monotone(files@, g0, g0.push(c1v));
            }
            let dir2 = crate::span::clone_bytes(dir);
            let (rt, st2) = parse_module_file(files, st1, c2, dir2, Ghost((d - 1) as nat));
            proof {
                lemma_prefix_trans(g0, g0.push(c1v).push(c2v), st2.guard@);
            }
            match rt {
                Err(e) => (Err(e), st2),
                Ok(tree) => (Ok((ASTNode::ModStatement { name, tree }, p2)), st2),
            }
        },
        (FileStatus::Absent, FileStatus::Absent) => (
            (Err(ParseError::MissingModule { candidate_a: c1, candidate_b: c2 }), st1)
        ),
    }
}

/// Opens, lexes and parses one module file to its end.
#[verifier::rlimit(100)]
#[verifier::spinoff_prover]
pub fn parse_module_file(
    files: &SourceTree,
    st: FsSt,
    path: Vec<u8>,
    dir2: Vec<u8>,
    Ghost(d): Ghost<nat>,
) -> (r: (Result<ASTTree, ParseError>, FsSt))
    requires
        d > unguarded_count(files@, st.guard@),
    ensures
        st.guard@.is_prefix_of(r.1.guard@),
        tres_m(r, s_parse_module_file(files@, sst_of(st), path@, dir2@, d)),
    decreases unguarded_count(files@, st.guard@), 1int, 0int, 0int,
{
    proof {
        lemma_prefix_refl(st.guard@);
        assert(st.loader@.len() == st.loader.store@.len());
        assert(st.loader.store.len() == st.loader.store@.len());
    }
    let mut st = st;
    match st.loader.open(&path, files) {
        Err(crate::loader::OpenFault::Unknown) => (Err(ParseError::NeedFile { path }), st),
        Err(crate::loader::OpenFault::Missing) => {
            let pb = crate::span::clone_bytes(&path);
            (Err(ParseError::MissingModule { candidate_a: path, candidate_b: pb }), st)
        },
        Ok(newfid) => {
            let content = crate::span::clone_bytes(st.loader.load(newfid));
            let tz = crate::tokenizer::Tokenizer::new(crate::span::clone_bytes(&content));
            match tz.tree() {
                Err(e) => (Err(ParseError::Lex { file: newfid, err: e }), st),
                Ok(tt) => {
                    let (r1, st2) = parse_nodes(
                        &tt.stream,
                        0,
                        st,
                        files,
                        newfid,
                        &content,
                        &dir2,
                        false,
                        Ghost(d),
                    );
                    match r1 {
                        Err(e) => (Err(e), st2),
                        Ok((nodes, _)) => (Ok(ASTTree::new(nodes, newfid)), st2),
                    }
                },
            }
        },
    }
}

/// Reads `trait name generics? ( : bounds )? { ... }`.
#[verifier::rlimit(100)]
#[verifier::spinoff_prover]
pub fn consume_trait_keyword(
    toks: &Vec<Token>,
    pos: usize,
    st: FsSt,
    files: &SourceTree,
    fid: FileId,
    src: &Vec<u8>,
    dir: &Vec<u8>,
    Ghost(d): Ghost<nat>,
) -> (r: (Result<(ASTNode, usize), ParseError>, FsSt))
    requires
        pos <= toks.len(),
        d > unguarded_count(files@, st.guard@),
    ensures
        st.guard@.is_prefix_of(r.1.guard@),
        stays(r.0, pos as int, toks@.len() as int),
        moved(r.0, pos as int, toks@.len() as int),
        nres_m(
            r,
            s_consume_trait_keyword(toks@, pos as int, sst_of(st), files@, fid, src@, dir@, d),
        ),
    decreases unguarded_count(files@, st.guard@), 0int, toks@.len() - pos, 10int,
{
    proof {
        lemma_prefix_refl(st.guard@);
    }
    if pos < toks.len() && matches!(toks[pos], Token::TraitKeyword) {
        match must_ident(toks, pos + 1, fid) {
            Err(e) => (Err(e), st),
            Ok((name, p2)) => {
                match consume_generics(toks, p2, fid) {
                    Err(e) => (Err(e), st),
                    Ok((generics, p3)) => {
                        let p4 = skip_ws(toks, p3);
                        let with_sup: Result<(Traits, usize), ParseError> = if p4 < toks.len()
                            && matches!(toks[p4], Token::Colon) {
                            match consume_traits(toks, p4 + 1, fid) {
                                Err(e) => Err(e),
                                Ok((tr, p5)) => Ok((tr, p5)),
                            }
                        } else {
                            Ok((Traits(Vec::new()), p4))
                        };
                        match with_sup {
                            Err(e) => (Err(e), st),
                            Ok((supertraits, p5)) => {
                                match must(toks, p5, fid, Token::LeftCurly) {
                                    Err(e) => (Err(e), st),
                                    Ok((_, p6)) => {
                                        let (r1, st1) = parse_nodes(
                                            toks,
                                            p6,
                                            st,
                                            files,
                                            fid,
                                            src,
                                            dir,
                                            true,
                                            Ghost(d),
                                        );
                                        match r1 {
                                            Err(e) => (Err(e), st1),
                                            Ok((nodes, p7)) => {
                                                let tree = ASTTree::new(nodes, fid);
                                                proof {
                                                    let s1 = s_parse_nodes(
                                                        toks@,
                                                        p6 as int,
                                                        sst_of(st),
                                                        files@,
                                                        fid,
                                                        src@,
                                                        dir@,
                                                        true,
                                                        d,
                                                    );
                                                    if let (Ok((gnodes, _)), _) = s1 {
                                                        let gt = GTree { nodes: gnodes, id: fid };
                                                        assert(tree_models(tree, gt));
                                                    }
                                                }
                                                (
                                                    Ok(
                                                        (
                                                            ASTNode::TraitDeclaration {
                                                                name,
                                                                generics,
                                                                supertraits,
                                                                tree,
                                                            },
                                                            p7,
                                                        ),
                                                    ),
                                                    st1,
                                                )
                                            },
                                        }
                                    },
                                }
                            },
                        }
                    },
                }
            },
        }
    } else {
        (
            (Err(ParseError::UnexpectedToken { at: pos, file: fid, expected: Expected::TopLevel }), st)
        )
    }
}

/// Reads `implement generics? path ( for path )? { ... }`.
#[verifier::rlimit(100)]
#[verifier::spinoff_prover]
pub fn consume_implement_keyword(
    toks: &Vec<Token>,
    pos: usize,
    st: FsSt,
    files: &SourceTree,
    fid: FileId,
    src: &Vec<u8>,
    dir: &Vec<u8>,
    Ghost(d): Ghost<nat>,
) -> (r: (Result<(ASTNode, usize), ParseError>, FsSt))
    requires
        pos <= toks.len(),
        d > unguarded_count(files@, st.guard@),
    ensures
        st.guard@.is_prefix_of(r.1.guard@),
        stays(r.0, pos as int, toks@.len() as int),
        moved(r.0, pos as int, toks@.len() as int),
        nres_m(
            r,
            s_consume_implement_keyword(toks@, pos as int, sst_of(st), files@, fid, src@, dir@, d),
        ),
    decreases unguarded_count(files@, st.guard@), 0int, toks@.len() - pos, 10int,
{
    proof {
        lemma_prefix_refl(st.guard@);
    }
    if pos < toks.len() && matches!(toks[pos], Token::ImplementKeyword) {
        match consume_generics(toks, pos + 1, fid) {
            Err(e) => (Err(e), st),
            Ok((generics, p2)) => {
                let p3 = skip_ws(toks, p2);
                match consume_a_path(toks, p3, fid) {
                    Err(e) => (Err(e), st),
                    Ok((first, p4)) => {
                        let p5 = skip_ws(toks, p4);
                        if p5 < toks.len() && matches!(toks[p5], Token::ForKeyword) {
                            let p6 = skip_ws(toks, p5 + 1);
                            match consume_a_path(toks, p6, fid) {
                                Err(e) => (Err(e), st),
                                Ok((second, p7)) => {
                                    match must(toks, p7, fid, Token::LeftCurly) {
                                        Err(e) => (Err(e), st),
                                        Ok((_, p8)) => {
                                            let (r1, st1) = parse_nodes(
                                                toks,
                                                p8,
                                                st,
                                                files,
                                                fid,
                                                src,
                                                dir,
                                                true,
                                                Ghost(d),
                                            );
                                            match r1 {
                                                Err(e) => (Err(e), st1),
                                                Ok((nodes, p9)) => {
                                                    let tree = ASTTree::new(nodes, fid);
                                                    proof {
                                                        let s1 = s_parse_nodes(
                                                            toks@,
                                                            p8 as int,
                                                            sst_of(st),
                                                            files@,
                                                            fid,
                                                            src@,
                                                            dir@,
                                                            true,
                                                            d,
                                                        );
                                                        if let (Ok((gnodes, _)), _) = s1 {
                                                            let gt = GTree { nodes: gnodes, id: fid };
                                                            assert(tree_models(tree, gt));
                                                        }
                                                    }
                                                    (
                                                        Ok(
                                                            (
                                                                ASTNode::ImplementBlock {
                                                                    generics,
                                                                    traitpath: Some(first),
                                                                    implementor: second,
                                                                    block: tree,
                                                                },
                                                                p9,
                                                            ),
                                                        ),
                                                        st1,
                                                    )
                                                },
                                            }
                                        },
                                    }
                                },
                            }
                        } else if p5 < toks.len() && matches!(toks[p5], Token::LeftCurly) {
                            let (r1, st1) = parse_nodes(
                                toks,
                                p5 + 1,
                                st,
                                files,
                                fid,
                                src,
                                dir,
                                true,
                                Ghost(d),
                            );
                            match r1 {
                                Err(e) => (Err(e), st1),
                                Ok((nodes, p9)) => {
                                    let tree = ASTTree::new(nodes, fid);
                                    proof {
                                        let s1 = s_parse_nodes(
                                            toks@,
                                            p5 + 1,
                                            sst_of(st),
                                            files@,
                                            fid,
                                            src@,
                                            dir@,
                                            true,
                                            d,
                                        );
                                        if let (Ok((gnodes, _)), _) = s1 {
                                            let gt = GTree { nodes: gnodes, id: fid };
                                            assert(tree_models(tree, gt));
                                        }
                                    }
                                    (
                                        Ok(
                                            (
                                                ASTNode::ImplementBlock {
                                                    generics,
                                                    traitpath: None,
                                                    implementor: first,
                                                    block: tree,
                                                },
                                                p9,
                                            ),
                                        ),
                                        st1,
                                    )
                                },
                            }
                        } else if p5 < toks.len() {
                            (
                                (
                                    Err(ParseError::UnexpectedToken {
                                        at: p5,
                                        file: fid,
                                        expected: Expected::AToken(Token::LeftCurly),
                                    }),
                                    st,
                                )
                            )
                        } else {
                            (
                                (
                                    Err(ParseError::UnexpectedEof {
                                        file: fid,
                                        expected: Expected::AToken(Token::LeftCurly),
                                    }),
                                    st,
                                )
                            )
                        }
                    },
                }
            },
        }
    } else {
        (
            (Err(ParseError::UnexpectedToken { at: pos, file: fid, expected: Expected::TopLevel }), st)
        )
    }
}

/// Reads `public <top-level>`.
#[verifier::rlimit(100)]
#[verifier::spinoff_prover]
pub fn consume_public_keyword(
    toks: &Vec<Token>,
    pos: usize,
    st: FsSt,
    files: &SourceTree,
    fid: FileId,
    src: &Vec<u8>,
    dir: &Vec<u8>,
    Ghost(d): Ghost<nat>,
) -> (r: (Result<(ASTNode, usize), ParseError>, FsSt))
    requires
        pos <= toks.len(),
        d > unguarded_count(files@, st.guard@),
    ensures
        st.guard@.is_prefix_of(r.1.guard@),
        stays(r.0, pos as int, toks@.len() as int),
        moved(r.0, pos as int, toks@.len() as int),
        nres_m(
            r,
            s_consume_public_keyword(toks@, pos as int, sst_of(st), files@, fid, src@, dir@, d),
        ),
    decreases unguarded_count(files@, st.guard@), 0int, toks@.len() - pos, 10int,
{
    proof {
        lemma_prefix_refl(st.guard@);
    }
    if pos < toks.len() && matches!(toks[pos], Token::PublicKeyword) {
        let (r1, st1) = parse_value(toks, pos + 1, st, files, fid, src, dir, Ghost(d));
        match r1 {
            Err(e) => (Err(e), st1),
            Ok((node, p2)) => (Ok((ASTNode::Public(Box::new(node)), p2)), st1),
        }
    } else {
        (
            (Err(ParseError::UnexpectedToken { at: pos, file: fid, expected: Expected::TopLevel }), st)
        )
    }
}

/// Reads attributes and the production they decorate.
#[verifier::rlimit(100)]
#[verifier::spinoff_prover]
pub fn consume_attributes(
    toks: &Vec<Token>,
    pos: usize,
    st: FsSt,
    files: &SourceTree,
    fid: FileId,
    src: &Vec<u8>,
    dir: &Vec<u8>,
    Ghost(d): Ghost<nat>,
) -> (r: (Result<(ASTNode, usize), ParseError>, FsSt))
    requires
        pos <= toks.len(),
        d > unguarded_count(files@, st.guard@),
    ensures
        st.guard@.is_prefix_of(r.1.guard@),
        stays(r.0, pos as int, toks@.len() as int),
        moved(r.0, pos as int, toks@.len() as int),
        nres_m(r, s_consume_attributes(toks@, pos as int, sst_of(st), files@, fid, src@, dir@, d)),
    decreases unguarded_count(files@, st.guard@), 0int, toks@.len() - pos, 10int,
{
    proof {
        lemma_prefix_refl(st.guard@);
    }
    match attr_list(toks, pos, fid, src) {
        Err(e) => (Err(e), st),
        Ok((attrs, p2)) => {
            let (r1, st1) = parse_value(toks, p2, st, files, fid, src, dir, Ghost(d));
            match r1 {
                Err(e) => (Err(e), st1),
                Ok((node, p3)) => (Ok((ASTNode::Attributed(attrs, Box::new(node)), p3)), st1),
            }
        },
    }
}


/// Drives the parser over one file's token stream: the state the original
/// program wires together for a compilation of one file.
pub struct ASTGenerator {
    pub src: FileId,
    pub tokens: crate::tokenizer::TokenTree,
    /// The directory of the file under parse; module candidates are resolved
    /// against it.
    pub path: Vec<u8>,
    pub source: Vec<u8>,
    pub loader: FileLoader,
    pub guard: RecursiveGuard,
}

impl ASTGenerator {
    pub fn new(
        src: FileId,
        tokens: crate::tokenizer::TokenTree,
        path: Vec<u8>,
        loader: FileLoader,
        guard: RecursiveGuard,
    ) -> (r: ASTGenerator)
        requires
            src.0 < loader@.len(),
        ensures
            r.src == src,
            r.tokens == tokens,
            r.path@ == s_dirname(path@),
            r.source@ == loader@[src.0 as int],
            r.loader == loader,
            r.guard == guard,
    {
        let dir = dirname(&path);
        let source = crate::span::clone_bytes(loader.load(src));
        ASTGenerator { src, tokens, path: dir, source, loader, guard }
    }

    pub fn file_id(&self) -> (r: FileId)
        ensures
            r == self.src,
    {
        self.src
    }

    /// Parses the whole token stream into a syntactic tree. The loader comes
    /// back out so that name spans can be resolved afterwards.
    pub fn tree(self, files: &SourceTree) -> (r: (Result<ASTTree, ParseError>, FileLoader))
        requires
            self.tokens.wf(),
        ensures
            ({
                let d = (unguarded_count(files@, self.guard@) + 1) as nat;
                let s = s_parse_nodes(
                    self.tokens.stream@,
                    self.tokens.pos as int,
                    SSt { loader: self.loader@, guard: self.guard@ },
                    files@,
                    self.src,
                    self.source@,
                    self.path@,
                    false,
                    d,
                );
                &&& (match (r.0, s.0) {
                    (Ok(t), Ok((gn, _))) => tree_models(t, GTree { nodes: gn, id: self.src }),
                    (Err(a), Err(b)) => perr_models(a, b),
                    _ => false,
                })
                &&& r.1@ == s.1.loader
            }),
    {
        let ghost d = unguarded_count(files@, self.guard@) + 1;
        let toks = self.tokens;
        let st = FsSt { loader: self.loader, guard: self.guard };
        let (r1, st1) = parse_nodes(
            &toks.stream,
            toks.pos,
            st,
            files,
            self.src,
            &self.source,
            &self.path,
            false,
            Ghost(d),
        );
        match r1 {
            Err(e) => (Err(e), st1.loader),
            Ok((nodes, _)) => {
                let tree = ASTTree::new(nodes, self.src);
                proof {
                    let s = s_parse_nodes(
                        toks.stream@,
                        toks.pos as int,
                        SSt { loader: st.loader@, guard: st.guard@ },
                        files@,
                        self.src,
                        self.source@,
                        self.path@,
                        false,
                        d,
                    );
                    if let (Ok((gn, _)), _) = s {
                        assert(tree_models(tree, GTree { nodes: gn, id: self.src }));
                    }
                }
                (Ok(tree), st1.loader)
            },
        }
    }
}

/// Cycle refusal: a module statement whose candidate file is already being
/// parsed on the current recursion frame is refused with a module-cycle
/// error, no module node is produced, and the state is left exactly as it
/// was.
pub proof fn lemma_cycle_refusal(
    toks: Seq<Token>,
    pos: int,
    name: Span,
    st: SSt,
    files: Seq<(Seq<u8>, Option<Seq<u8>>)>,
    fid: FileId,
    src: Seq<u8>,
    dir: Seq<u8>,
    d: nat,
)
    requires
        0 <= pos < toks.len(),
        name.begin <= name.end <= src.len(),
        s_guard_contains(
            st.guard,
            s_candidate_a(dir, src.subrange(name.begin as int, name.end as int)),
        ) || s_guard_contains(
            st.guard,
            s_candidate_b(dir, src.subrange(name.begin as int, name.end as int)),
        ),
    ensures
        (s_consume_node_from_fs(toks, pos, name, st, files, fid, src, dir, d)).0 == Err::<
            (GNode, int),
            GParseError,
        >(
            GParseError::ModuleCycle {
                candidate_a: s_candidate_a(dir, src.subrange(name.begin as int, name.end as int)),
                candidate_b: s_candidate_b(dir, src.subrange(name.begin as int, name.end as int)),
            },
        ),
        (s_consume_node_from_fs(toks, pos, name, st, files, fid, src, dir, d)).1 == st,
{
}

/// Idempotent re-parse: parsing a module file is a function of the file
/// picture and the starting state alone, so two runs over identical file
/// trees from the same state yield the same specification-level tree,
/// equal under structural equality.
pub proof fn lemma_idempotent_reparse(
    files: Seq<(Seq<u8>, Option<Seq<u8>>)>,
    st: SSt,
    path: Seq<u8>,
    dir: Seq<u8>,
    d: nat,
    r1: (Result<GTree, GParseError>, SSt),
    r2: (Result<GTree, GParseError>, SSt),
)
    requires
        r1 == s_parse_module_file(files, st, path, dir, d),
        r2 == s_parse_module_file(files, st, path, dir, d),
    ensures
        r1 == r2,
{
}

} // verus!
