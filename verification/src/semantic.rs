use crate::ast::{FunctionDeclarationParameters, GPath, GPathNode, Path, PathNode, path_models};
use crate::ast::ASTTree;
use crate::gst::LanguageAttribute;
use crate::span::Span;
use vstd::prelude::*;

verus! {

broadcast use vstd::seq::axiom_seq_index_decreases;

/// The flat symbol table of the standalone analysis pass: qualified names
/// mapped to classified symbols, in insertion order.
#[derive(Debug)]
pub struct GlobalSymbolTree {
    pub symbols: Vec<(Vec<Vec<u8>>, Symbol)>,
}

/// The import list the analysis pass collects per file.
#[derive(Debug)]
pub struct ImportTree(pub Vec<Path>);

/// The standalone analysis pass over one syntactic tree.
#[derive(Debug)]
pub struct SemanticAnalyzer {
    pub stream: ASTTree,
    pub imports: ImportTree,
}

impl SemanticAnalyzer {
    pub fn new(tree: ASTTree) -> (r: SemanticAnalyzer)
        ensures
            r.stream == tree,
            r.imports.0@ == Seq::<Path>::empty(),
    {
        let r = SemanticAnalyzer { stream: tree, imports: ImportTree(Vec::new()) };
        proof {
            assert(r.imports.0@ =~= Seq::<Path>::empty());
        }
        r
    }
}

/// A classified symbol of the flat table.
#[derive(Debug)]
pub enum Symbol {
    Function { function_type: Type, params: Vec<Type> },
    Viewport { params: Vec<Type> },
}

/// A classified type: one of the closed built-in tags, or a link to a
/// user-defined type by its qualified name (the sequence of segment names).
#[derive(Debug)]
pub enum Type {
    Builtin(LanguageAttribute),
    Link(Vec<Vec<u8>>),
}

/// The specification-level picture of a classified type.
pub enum GType {
    Builtin(LanguageAttribute),
    Link(Seq<Seq<u8>>),
}

pub open spec fn gtype_models(e: Type, g: GType) -> bool {
    match g {
        GType::Builtin(a) => e matches Type::Builtin(b) && a == b,
        GType::Link(gq) => e matches Type::Link(eq) && eq@.len() == gq.len() && (forall|i: int|
            0 <= i < gq.len() ==> eq@[i]@ == #[trigger] gq[i]),
    }
}

pub open spec fn lit_integer8() -> Seq<u8> {
    seq!['i' as u8, 'n' as u8, 't' as u8, 'e' as u8, 'g' as u8, 'e' as u8, 'r' as u8, '8' as u8]
}
pub open spec fn lit_unsigned8() -> Seq<u8> {
    seq!['u' as u8, 'n' as u8, 's' as u8, 'i' as u8, 'g' as u8, 'n' as u8, 'e' as u8, 'd' as u8, '8' as u8]
}
pub open spec fn lit_float8() -> Seq<u8> {
    seq!['f' as u8, 'l' as u8, 'o' as u8, 'a' as u8, 't' as u8, '8' as u8]
}
pub open spec fn lit_integer16() -> Seq<u8> {
    seq!['i' as u8, 'n' as u8, 't' as u8, 'e' as u8, 'g' as u8, 'e' as u8, 'r' as u8, '1' as u8, '6' as u8]
}
pub open spec fn lit_unsigned16() -> Seq<u8> {
    seq!['u' as u8, 'n' as u8, 's' as u8, 'i' as u8, 'g' as u8, 'n' as u8, 'e' as u8, 'd' as u8, '1' as u8, '6' as u8]
}
pub open spec fn lit_float16() -> Seq<u8> {
    seq!['f' as u8, 'l' as u8, 'o' as u8, 'a' as u8, 't' as u8, '1' as u8, '6' as u8]
}
pub open spec fn lit_integer32() -> Seq<u8> {
    seq!['i' as u8, 'n' as u8, 't' as u8, 'e' as u8, 'g' as u8, 'e' as u8, 'r' as u8, '3' as u8, '2' as u8]
}
pub open spec fn lit_unsigned32() -> Seq<u8> {
    seq!['u' as u8, 'n' as u8, 's' as u8, 'i' as u8, 'g' as u8, 'n' as u8, 'e' as u8, 'd' as u8, '3' as u8, '2' as u8]
}
pub open spec fn lit_float32() -> Seq<u8> {
    seq!['f' as u8, 'l' as u8, 'o' as u8, 'a' as u8, 't' as u8, '3' as u8, '2' as u8]
}
pub open spec fn lit_integer64() -> Seq<u8> {
    seq!['i' as u8, 'n' as u8, 't' as u8, 'e' as u8, 'g' as u8, 'e' as u8, 'r' as u8, '6' as u8, '4' as u8]
}
pub open spec fn lit_unsigned64() -> Seq<u8> {
    seq!['u' as u8, 'n' as u8, 's' as u8, 'i' as u8, 'g' as u8, 'n' as u8, 'e' as u8, 'd' as u8, '6' as u8, '4' as u8]
}
pub open spec fn lit_float64() -> Seq<u8> {
    seq!['f' as u8, 'l' as u8, 'o' as u8, 'a' as u8, 't' as u8, '6' as u8, '4' as u8]
}
pub open spec fn lit_floatport() -> Seq<u8> {
    seq!['f' as u8, 'l' as u8, 'o' as u8, 'a' as u8, 't' as u8, 'p' as u8, 'o' as u8, 'r' as u8, 't' as u8]
}
pub open spec fn lit_nothing() -> Seq<u8> {
    seq!['n' as u8, 'o' as u8, 't' as u8, 'h' as u8, 'i' as u8, 'n' as u8, 'g' as u8]
}

/// The built-in tag a type name spells, if any: the closed table
/// `integer8..64, unsigned8..64, float8..64, floatport, nothing`.
pub open spec fn s_builtin_of(w: Seq<u8>) -> Option<LanguageAttribute> {
    if w == lit_integer8() {
        Some(LanguageAttribute::Integer8)
        } else if w == lit_unsigned8() {
        Some(LanguageAttribute::Unsigned8)
        } else if w == lit_float8() {
        Some(LanguageAttribute::Float8)
        } else if w == lit_integer16() {
        Some(LanguageAttribute::Integer16)
        } else if w == lit_unsigned16() {
        Some(LanguageAttribute::Unsigned16)
        } else if w == lit_float16() {
        Some(LanguageAttribute::Float16)
        } else if w == lit_integer32() {
        Some(LanguageAttribute::Integer32)
        } else if w == lit_unsigned32() {
        Some(LanguageAttribute::Unsigned32)
        } else if w == lit_float32() {
        Some(LanguageAttribute::Float32)
        } else if w == lit_integer64() {
        Some(LanguageAttribute::Integer64)
        } else if w == lit_unsigned64() {
        Some(LanguageAttribute::Unsigned64)
        } else if w == lit_float64() {
        Some(LanguageAttribute::Float64)
        } else if w == lit_floatport() {
        Some(LanguageAttribute::FloatPort)
        } else if w == lit_nothing() {
        Some(LanguageAttribute::Nothing)
    } else {
        None
    }
}

/// The bytes a name span denotes, or an empty name when the span lies
/// outside the source.
pub open spec fn s_span_name(sp: Span, src: Seq<u8>) -> Seq<u8> {
    if sp.begin <= sp.end <= src.len() {
        src.subrange(sp.begin as int, sp.end as int)
    } else {
        Seq::empty()
    }
}

/// The name one path segment contributes to a qualified name: a grouped
/// segment, or one whose span lies outside the source, contributes an empty
/// name.
pub open spec fn s_seg_name(seg: PathNode, src: Seq<u8>) -> Seq<u8> {
    match seg {
        PathNode::Singly { name, generics } => {
            if name.begin <= name.end <= src.len() {
                src.subrange(name.begin as int, name.end as int)
            } else {
                Seq::empty()
            }
        },
        PathNode::Multi(_) => Seq::empty(),
    }
}

/// The qualified name of a path: the sequence of its segment names.
pub open spec fn s_qualified(p: Path, src: Seq<u8>) -> Seq<Seq<u8>> {
    Seq::new(p.0@.len(), |i: int| s_seg_name(p.0@[i], src))
}

/// The ghost counterparts, over the path's specification-level model.
pub open spec fn s_gseg_name(seg: GPathNode, src: Seq<u8>) -> Seq<u8> {
    match seg {
        GPathNode::Singly { name, generics } => {
            if name.begin <= name.end <= src.len() {
                src.subrange(name.begin as int, name.end as int)
            } else {
                Seq::empty()
            }
        },
        GPathNode::Multi(_) => Seq::empty(),
    }
}

pub open spec fn s_gqualified(gp: GPath, src: Seq<u8>) -> Seq<Seq<u8>> {
    Seq::new(gp.len(), |i: int| s_gseg_name(gp[i], src))
}

/// Classification of one type path, per the closed built-in table: a
/// one-segment, generics-free path whose name is in the table becomes the
/// matching built-in tag; everything else links the path's qualified name.
pub open spec fn s_classify_path(p: Path, src: Seq<u8>) -> GType {
    if p.0@.len() == 1 && (p.0@[0] matches PathNode::Singly { name, generics }
        && generics.0@.len() == 0 && name.begin <= name.end <= src.len()) {
        match s_builtin_of(s_seg_name(p.0@[0], src)) {
            Some(tag) => GType::Builtin(tag),
            None => GType::Link(s_qualified(p, src)),
        }
    } else {
        GType::Link(s_qualified(p, src))
    }
}

/// Classification of an optional type path: a missing path is `Nothing`.
pub open spec fn s_from_path(input: Option<Path>, src: Seq<u8>) -> GType {
    match input {
        None => GType::Builtin(LanguageAttribute::Nothing),
        Some(p) => s_classify_path(p, src),
    }
}

/// The same classification over the path's specification-level model.
pub open spec fn s_classify_gpath(gp: GPath, src: Seq<u8>) -> GType {
    if gp.len() == 1 && (gp[0] matches GPathNode::Singly { name, generics } && generics.len()
        == 0 && name.begin <= name.end <= src.len()) {
        match s_builtin_of(s_gseg_name(gp[0], src)) {
            Some(tag) => GType::Builtin(tag),
            None => GType::Link(s_gqualified(gp, src)),
        }
    } else {
        GType::Link(s_gqualified(gp, src))
    }
}

pub open spec fn s_classify_gopt(gp: Option<GPath>, src: Seq<u8>) -> GType {
    match gp {
        None => GType::Builtin(LanguageAttribute::Nothing),
        Some(p) => s_classify_gpath(p, src),
    }
}

/// A path and its model classify alike.
pub proof fn lemma_classify_models(p: Path, gp: GPath, src: Seq<u8>)
    requires
        path_models(p, gp),
    ensures
        s_classify_path(p, src) == s_classify_gpath(gp, src),
{
    assert(s_qualified(p, src) =~= s_gqualified(gp, src)) by {
        assert forall|i: int| 0 <= i < gp.len() implies s_seg_name(p.0@[i], src) == s_gseg_name(
            #[trigger] gp[i],
            src,
        ) by {
            assert(crate::ast::pathnode_models(p.0@[i], gp[i]));
        }
    }
    if gp.len() == 1 {
        assert(crate::ast::pathnode_models(p.0@[0], gp[0]));
        assert(s_seg_name(p.0@[0], src) == s_gseg_name(gp[0], src));
    }
}

pub proof fn lemma_classify_opt_models(p: Option<Path>, gp: Option<GPath>, src: Seq<u8>)
    requires
        crate::ast::opt_path_models(p, gp),
    ensures
        s_from_path(p, src) == s_classify_gopt(gp, src),
{
    if let Some(gpp) = gp {
        lemma_classify_models(p.unwrap(), gpp, src);
    }
}

fn name_eq(src: &Vec<u8>, b: usize, e: usize, kw: &Vec<u8>) -> (r: bool)
    requires
        b <= e <= src@.len(),
    ensures
        r == (src@.subrange(b as int, e as int) == kw@),
{
    let ghost w = src@.subrange(b as int, e as int);
    if e - b != kw.len() {
        return false;
    }
    let mut i: usize = 0;
    while i < kw.len()
        invariant
            b <= e <= src@.len(),
            e - b == kw@.len(),
            0 <= i <= kw@.len(),
            w == src@.subrange(b as int, e as int),
            forall|j: int| 0 <= j < i ==> w[j] == kw@[j],
        decreases kw@.len() - i,
    {
        if src[b + i] != kw[i] {
            proof {
                assert(w[i as int] == src@[b + i]);
            }
            return false;
        }
        i = i + 1;
    }
    proof {
        assert(w =~= kw@);
    }
    true
}

fn builtin_lit(tag: u8) -> (v: Vec<u8>)
    ensures
        tag == 0 ==> v@ == lit_integer8(),
        tag == 1 ==> v@ == lit_unsigned8(),
        tag == 2 ==> v@ == lit_float8(),
        tag == 3 ==> v@ == lit_integer16(),
        tag == 4 ==> v@ == lit_unsigned16(),
        tag == 5 ==> v@ == lit_float16(),
        tag == 6 ==> v@ == lit_integer32(),
        tag == 7 ==> v@ == lit_unsigned32(),
        tag == 8 ==> v@ == lit_float32(),
        tag == 9 ==> v@ == lit_integer64(),
        tag == 10 ==> v@ == lit_unsigned64(),
        tag == 11 ==> v@ == lit_float64(),
        tag == 12 ==> v@ == lit_floatport(),
        tag >= 13 ==> v@ == lit_nothing(),
{
    let mut v: Vec<u8> = Vec::new();
    if tag == 0 {
        v.push('i' as u8);
        v.push('n' as u8);
        v.push('t' as u8);
        v.push('e' as u8);
        v.push('g' as u8);
        v.push('e' as u8);
        v.push('r' as u8);
        v.push('8' as u8);
        proof {
            assert(v@ =~= lit_integer8());
        }
        return v;
    }
    if tag == 1 {
        v.push('u' as u8);
        v.push('n' as u8);
        v.push('s' as u8);
        v.push('i' as u8);
        v.push('g' as u8);
        v.push('n' as u8);
        v.push('e' as u8);
        v.push('d' as u8);
        v.push('8' as u8);
        proof {
            assert(v@ =~= lit_unsigned8());
        }
        return v;
    }
    if tag == 2 {
        v.push('f' as u8);
        v.push('l' as u8);
        v.push('o' as u8);
        v.push('a' as u8);
        v.push('t' as u8);
        v.push('8' as u8);
        proof {
            assert(v@ =~= lit_float8());
        }
        return v;
    }
    if tag == 3 {
        v.push('i' as u8);
        v.push('n' as u8);
        v.push('t' as u8);
        v.push('e' as u8);
        v.push('g' as u8);
        v.push('e' as u8);
        v.push('r' as u8);
        v.push('1' as u8);
        v.push('6' as u8);
        proof {
            assert(v@ =~= lit_integer16());
        }
        return v;
    }
    if tag == 4 {
        v.push('u' as u8);
        v.push('n' as u8);
        v.push('s' as u8);
        v.push('i' as u8);
        v.push('g' as u8);
        v.push('n' as u8);
        v.push('e' as u8);
        v.push('d' as u8);
        v.push('1' as u8);
        v.push('6' as u8);
        proof {
            assert(v@ =~= lit_unsigned16());
        }
        return v;
    }
    if tag == 5 {
        v.push('f' as u8);
        v.push('l' as u8);
        v.push('o' as u8);
        v.push('a' as u8);
        v.push('t' as u8);
        v.push('1' as u8);
        v.push('6' as u8);
        proof {
            assert(v@ =~= lit_float16());
        }
        return v;
    }
    if tag == 6 {
        v.push('i' as u8);
        v.push('n' as u8);
        v.push('t' as u8);
        v.push('e' as u8);
        v.push('g' as u8);
        v.push('e' as u8);
        v.push('r' as u8);
        v.push('3' as u8);
        v.push('2' as u8);
        proof {
            assert(v@ =~= lit_integer32());
        }
        return v;
    }
    if tag == 7 {
        v.push('u' as u8);
        v.push('n' as u8);
        v.push('s' as u8);
        v.push('i' as u8);
        v.push('g' as u8);
        v.push('n' as u8);
        v.push('e' as u8);
        v.push('d' as u8);
        v.push('3' as u8);
        v.push('2' as u8);
        proof {
            assert(v@ =~= lit_unsigned32());
        }
        return v;
    }
    if tag == 8 {
        v.push('f' as u8);
        v.push('l' as u8);
        v.push('o' as u8);
        v.push('a' as u8);
        v.push('t' as u8);
        v.push('3' as u8);
        v.push('2' as u8);
        proof {
            assert(v@ =~= lit_float32());
        }
        return v;
    }
    if tag == 9 {
        v.push('i' as u8);
        v.push('n' as u8);
        v.push('t' as u8);
        v.push('e' as u8);
        v.push('g' as u8);
        v.push('e' as u8);
        v.push('r' as u8);
        v.push('6' as u8);
        v.push('4' as u8);
        proof {
            assert(v@ =~= lit_integer64());
        }
        return v;
    }
    if tag == 10 {
        v.push('u' as u8);
        v.push('n' as u8);
        v.push('s' as u8);
        v.push('i' as u8);
        v.push('g' as u8);
        v.push('n' as u8);
        v.push('e' as u8);
        v.push('d' as u8);
        v.push('6' as u8);
        v.push('4' as u8);
        proof {
            assert(v@ =~= lit_unsigned64());
        }
        return v;
    }
    if tag == 11 {
        v.push('f' as u8);
        v.push('l' as u8);
        v.push('o' as u8);
        v.push('a' as u8);
        v.push('t' as u8);
        v.push('6' as u8);
        v.push('4' as u8);
        proof {
            assert(v@ =~= lit_float64());
        }
        return v;
    }
    if tag == 12 {
        v.push('f' as u8);
        v.push('l' as u8);
        v.push('o' as u8);
        v.push('a' as u8);
        v.push('t' as u8);
        v.push('p' as u8);
        v.push('o' as u8);
        v.push('r' as u8);
        v.push('t' as u8);
        proof {
            assert(v@ =~= lit_floatport());
        }
        return v;
    }
    if tag == 13 {
        v.push('n' as u8);
        v.push('o' as u8);
        v.push('t' as u8);
        v.push('h' as u8);
        v.push('i' as u8);
        v.push('n' as u8);
        v.push('g' as u8);
        proof {
            assert(v@ =~= lit_nothing());
        }
        return v;
    }
    v.push('n' as u8);
    v.push('o' as u8);
    v.push('t' as u8);
    v.push('h' as u8);
    v.push('i' as u8);
    v.push('n' as u8);
    v.push('g' as u8);
    proof {
        assert(v@ =~= lit_nothing());
    }
    v
}

/// Matches a name range against the built-in table.
fn builtin_of(src: &Vec<u8>, b: usize, e: usize) -> (r: Option<LanguageAttribute>)
    requires
        b <= e <= src@.len(),
    ensures
        r == s_builtin_of(src@.subrange(b as int, e as int)),
{
    if name_eq(src, b, e, &builtin_lit(0)) {
        Some(LanguageAttribute::Integer8)
        } else if name_eq(src, b, e, &builtin_lit(1)) {
        Some(LanguageAttribute::Unsigned8)
        } else if name_eq(src, b, e, &builtin_lit(2)) {
        Some(LanguageAttribute::Float8)
        } else if name_eq(src, b, e, &builtin_lit(3)) {
        Some(LanguageAttribute::Integer16)
        } else if name_eq(src, b, e, &builtin_lit(4)) {
        Some(LanguageAttribute::Unsigned16)
        } else if name_eq(src, b, e, &builtin_lit(5)) {
        Some(LanguageAttribute::Float16)
        } else if name_eq(src, b, e, &builtin_lit(6)) {
        Some(LanguageAttribute::Integer32)
        } else if name_eq(src, b, e, &builtin_lit(7)) {
        Some(LanguageAttribute::Unsigned32)
        } else if name_eq(src, b, e, &builtin_lit(8)) {
        Some(LanguageAttribute::Float32)
        } else if name_eq(src, b, e, &builtin_lit(9)) {
        Some(LanguageAttribute::Integer64)
        } else if name_eq(src, b, e, &builtin_lit(10)) {
        Some(LanguageAttribute::Unsigned64)
        } else if name_eq(src, b, e, &builtin_lit(11)) {
        Some(LanguageAttribute::Float64)
        } else if name_eq(src, b, e, &builtin_lit(12)) {
        Some(LanguageAttribute::FloatPort)
        } else if name_eq(src, b, e, &builtin_lit(13)) {
        Some(LanguageAttribute::Nothing)
    } else {
        None
    }
}

/// Reads a segment's name into an owned byte string.
fn seg_name(seg: &PathNode, src: &Vec<u8>) -> (r: Vec<u8>)
    ensures
        r@ == s_seg_name(*seg, src@),
{
    match seg {
        PathNode::Singly { name, generics } => {
            if name.begin <= name.end && name.end <= src.len() {
                let s = name.parse(src.as_slice());
                vstd::slice::slice_to_vec(s)
            } else {
                Vec::new()
            }
        },
        PathNode::Multi(_) => Vec::new(),
    }
}

/// Builds a path's qualified name.
fn qualified(p: &Path, src: &Vec<u8>) -> (r: Vec<Vec<u8>>)
    ensures
        r@.len() == s_qualified(*p, src@).len(),
        forall|i: int| 0 <= i < r@.len() ==> r@[i]@ == #[trigger] s_qualified(*p, src@)[i],
{
    let mut out: Vec<Vec<u8>> = Vec::new();
    let mut i: usize = 0;
    while i < p.0.len()
        invariant
            0 <= i <= p.0@.len(),
            out@.len() == i,
            forall|j: int| 0 <= j < i ==> out@[j]@ == s_seg_name(p.0@[j], src@),
        decreases p.0@.len() - i,
    {
        out.push(seg_name(&p.0[i], src));
        i = i + 1;
    }
    out
}

/// Classifies one type path by the built-in table.
pub fn classify_path(p: &Path, src: &Vec<u8>) -> (r: Type)
    ensures
        gtype_models(r, s_classify_path(*p, src@)),
{
    let single_ok: bool = p.0.len() == 1 && (match &p.0[0] {
        PathNode::Singly { name, generics } => generics.0.len() == 0 && name.begin <= name.end
            && name.end <= src.len(),
        PathNode::Multi(_) => false,
    });
    if single_ok {
        let (b, e) = match &p.0[0] {
            PathNode::Singly { name, .. } => (name.begin, name.end),
            PathNode::Multi(_) => (0, 0),
        };
        match builtin_of(src, b, e) {
            Some(tag) => Type::Builtin(tag),
            None => Type::Link(qualified(p, src)),
        }
    } else {
        Type::Link(qualified(p, src))
    }
}

impl Type {
    /// Classifies an optional type path against its source bytes; a missing
    /// path is `Nothing`.
    pub fn from_path(input: &Option<Path>, src: &Vec<u8>) -> (r: Type)
        ensures
            gtype_models(r, s_from_path(*input, src@)),
    {
        match input {
            None => Type::Builtin(LanguageAttribute::Nothing),
            Some(p) => classify_path(p, src),
        }
    }

    /// Classifies every parameter's type path.
    pub fn from_path_params(input: &FunctionDeclarationParameters, src: &Vec<u8>) -> (r: Vec<Type>)
        ensures
            r@.len() == input.0@.len(),
            forall|i: int|
                0 <= i < input.0@.len() ==> gtype_models(
                    r@[i],
                    s_classify_path((#[trigger] input.0@[i]).arg_type, src@),
                ),
    {
        let mut out: Vec<Type> = Vec::new();
        let mut i: usize = 0;
        while i < input.0.len()
            invariant
                0 <= i <= input.0@.len(),
                out@.len() == i,
                forall|j: int|
                    0 <= j < i ==> gtype_models(
                        out@[j],
                        s_classify_path((#[trigger] input.0@[j]).arg_type, src@),
                    ),
            decreases input.0@.len() - i,
        {
            out.push(classify_path(&input.0[i].arg_type, src));
            i = i + 1;
        }
        out
    }
}

} // verus!
