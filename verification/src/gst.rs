use crate::ast::{
    ASTNode, ASTTree, FunctionDeclarationParameters, GNode, GParams, GTree, Path, PathNode,
    nodes_models, params_models, path_models, tree_models,
};
use crate::loader::FileLoader;
use crate::semantic::{
    GType, Type, classify_path, gtype_models, lemma_classify_models, lemma_classify_opt_models,
    s_classify_gopt, s_classify_gpath, s_span_name,
};
use crate::span::{Span, bytes_eq, clone_bytes};
use vstd::prelude::*;

verus! {

broadcast use vstd::seq::axiom_seq_index_decreases;

/// The closed set of built-in type names a one-segment, generics-free type
/// path can classify to.
#[derive(Debug, Clone, Copy, PartialEq, Eq, Structural, Hash)]
pub enum LanguageAttribute {
    Integer8,
    Unsigned8,
    Float8,
    Integer16,
    Unsigned16,
    Float16,
    Integer32,
    Unsigned32,
    Float32,
    Integer64,
    Unsigned64,
    Float64,
    FloatPort,
    Nothing,
}

/// A failure of symbol-tree construction. `NameOutOfRange` reports a
/// malformed input tree: a name span or file id outside its buffer.
#[derive(Debug)]
pub enum SymbolError {
    DuplicateSymbol { name: Vec<u8> },
    UnresolvedUsing { name: Vec<u8> },
    NonModuleOnPath,
    GenericsOnUsingPath,
    EmptyUsingPath,
    NameOutOfRange,
}

/// The specification-level picture of a symbol failure.
pub enum GSymbolError {
    DuplicateSymbol { name: Seq<u8> },
    UnresolvedUsing { name: Seq<u8> },
    NonModuleOnPath,
    GenericsOnUsingPath,
    EmptyUsingPath,
    NameOutOfRange,
}

pub open spec fn serr_models(e: SymbolError, g: GSymbolError) -> bool {
    match g {
        GSymbolError::DuplicateSymbol { name } => e matches SymbolError::DuplicateSymbol {
            name: n,
        } && n@ == name,
        GSymbolError::UnresolvedUsing { name } => e matches SymbolError::UnresolvedUsing {
            name: n,
        } && n@ == name,
        GSymbolError::NonModuleOnPath => e is NonModuleOnPath,
        GSymbolError::GenericsOnUsingPath => e is GenericsOnUsingPath,
        GSymbolError::EmptyUsingPath => e is EmptyUsingPath,
        GSymbolError::NameOutOfRange => e is NameOutOfRange,
    }
}

/// A symbol of a module scope. An alias redirects to another scope of the
/// same compilation, named by its index in the flat scope registry rather
/// than by a pointer.
#[derive(Debug)]
pub enum Symbol {
    Function { params: Vec<(Vec<u8>, Type)>, return_type: Type },
    Viewport { params: Vec<(Vec<u8>, Type)> },
    Builtin(LanguageAttribute),
    Alias(usize),
}

/// One namespace: symbols and child modules, each in insertion order.
#[derive(Debug)]
pub struct ModuleScope {
    pub symbols: Vec<(Vec<u8>, Symbol)>,
    pub submodules: Vec<(Vec<u8>, usize)>,
}

/// The flat registry of every scope of a compilation. Child scopes sit
/// before their parents; `root` names the compilation's root scope.
#[derive(Debug)]
pub struct GlobalSymbolTree {
    pub scopes: Vec<ModuleScope>,
    pub root: usize,
}

/// Specification-level pictures of the scope types.
pub enum GSymbol {
    Function { params: Seq<(Seq<u8>, GType)>, return_type: GType },
    Viewport { params: Seq<(Seq<u8>, GType)> },
    Builtin(LanguageAttribute),
    Alias(int),
}

pub struct GScope {
    pub symbols: Seq<(Seq<u8>, GSymbol)>,
    pub submodules: Seq<(Seq<u8>, int)>,
}

pub open spec fn gparams_list_models(e: Seq<(Vec<u8>, Type)>, g: Seq<(Seq<u8>, GType)>) -> bool {
    e.len() == g.len() && (forall|i: int|
        0 <= i < g.len() ==> e[i].0@ == (#[trigger] g[i]).0 && gtype_models(e[i].1, g[i].1))
}

pub open spec fn sym_models(e: Symbol, g: GSymbol) -> bool {
    match g {
        GSymbol::Function { params, return_type } => e matches Symbol::Function {
            params: ep,
            return_type: er,
        } && gparams_list_models(ep@, params) && gtype_models(er, return_type),
        GSymbol::Viewport { params } => e matches Symbol::Viewport { params: ep }
            && gparams_list_models(ep@, params),
        GSymbol::Builtin(a) => e matches Symbol::Builtin(b) && a == b,
        GSymbol::Alias(t) => e matches Symbol::Alias(u) && u as int == t,
    }
}

pub open spec fn scope_models(e: ModuleScope, g: GScope) -> bool {
    &&& e.symbols@.len() == g.symbols.len()
    &&& (forall|i: int|
        0 <= i < g.symbols.len() ==> e.symbols@[i].0@ == (#[trigger] g.symbols[i]).0
            && sym_models(e.symbols@[i].1, g.symbols[i].1))
    &&& e.submodules@.len() == g.submodules.len()
    &&& (forall|i: int|
        0 <= i < g.submodules.len() ==> e.submodules@[i].0@ == (#[trigger] g.submodules[i]).0
            && e.submodules@[i].1 as int == g.submodules[i].1)
}

pub open spec fn scopes_models(es: Seq<ModuleScope>, gs: Seq<GScope>) -> bool {
    es.len() == gs.len() && (forall|i: int|
        0 <= i < gs.len() ==> scope_models(es[i], #[trigger] gs[i]))
}

pub open spec fn g_empty_scope() -> GScope {
    GScope { symbols: Seq::empty(), submodules: Seq::empty() }
}

/// Whether the scope already holds a symbol under this name.
pub open spec fn g_sym_has(s: GScope, nm: Seq<u8>) -> bool {
    exists|j: int| 0 <= j < s.symbols.len() && (#[trigger] s.symbols[j]).0 == nm
}

/// Whether the scope already holds a submodule under this name.
pub open spec fn g_sub_has(s: GScope, nm: Seq<u8>) -> bool {
    exists|j: int| 0 <= j < s.submodules.len() && (#[trigger] s.submodules[j]).0 == nm
}

/// The first submodule entry under this name, if any.
pub open spec fn g_sub_find(subs: Seq<(Seq<u8>, int)>, nm: Seq<u8>) -> Option<int>
    decreases subs.len(),
{
    if subs.len() == 0 {
        None
    } else if subs[0].0 == nm {
        Some(subs[0].1)
    } else {
        g_sub_find(subs.drop_first(), nm)
    }
}

/// Classified parameters of a declaration: each parameter's name (resolved
/// against the active source slice) with its classified type.
pub open spec fn s_classify_gparams(params: GParams, src: Seq<u8>) -> Seq<(Seq<u8>, GType)> {
    Seq::new(params.len(), |i: int| (s_span_name(params[i].name, src), s_classify_gpath(params[i].arg_type, src)))
}

/// Pass 1 of the symbol-tree builder, from node `i` on: function and viewport
/// declarations file symbols under their names; a module statement builds its
/// child scope recursively (reading names against the child tree's own file)
/// and files it under `submodules`; a second insertion of a name is a
/// duplicate-symbol failure. Child scopes are appended to the registry before
/// their parents.
pub open spec fn s_gen_nodes(
    nodes: Seq<GNode>,
    i: int,
    loader: Seq<Seq<u8>>,
    src: Seq<u8>,
    scope: GScope,
    reg: Seq<GScope>,
) -> Result<(GScope, Seq<GScope>), GSymbolError>
    decreases nodes, nodes.len() - i,
{
    if !(0 <= i < nodes.len()) {
        Ok((scope, reg))
    } else {
        match nodes[i] {
            GNode::FunctionDeclaration { name, generics, params, block, out_type } => {
                if !(name.begin <= name.end <= src.len()) {
                    Err(GSymbolError::NameOutOfRange)
                } else {
                    let nm = src.subrange(name.begin as int, name.end as int);
                    if g_sym_has(scope, nm) {
                        Err(GSymbolError::DuplicateSymbol { name: nm })
                    } else {
                        let sym = GSymbol::Function {
                            params: s_classify_gparams(params, src),
                            return_type: s_classify_gopt(out_type, src),
                        };
                        s_gen_nodes(
                            nodes,
                            i + 1,
                            loader,
                            src,
                            GScope {
                                symbols: scope.symbols.push((nm, sym)),
                                submodules: scope.submodules,
                            },
                            reg,
                        )
                    }
                }
            },
            GNode::ViewportDeclaration { name, params, block } => {
                if !(name.begin <= name.end <= src.len()) {
                    Err(GSymbolError::NameOutOfRange)
                } else {
                    let nm = src.subrange(name.begin as int, name.end as int);
                    if g_sym_has(scope, nm) {
                        Err(GSymbolError::DuplicateSymbol { name: nm })
                    } else {
                        let sym = GSymbol::Viewport { params: s_classify_gparams(params, src) };
                        s_gen_nodes(
                            nodes,
                            i + 1,
                            loader,
                            src,
                            GScope {
                                symbols: scope.symbols.push((nm, sym)),
                                submodules: scope.submodules,
                            },
                            reg,
                        )
                    }
                }
            },
            GNode::ModStatement { name, tree } => {
                if !(name.begin <= name.end <= src.len()) {
                    Err(GSymbolError::NameOutOfRange)
                } else {
                    let nm = src.subrange(name.begin as int, name.end as int);
                    if g_sub_has(scope, nm) {
                        Err(GSymbolError::DuplicateSymbol { name: nm })
                    } else if !((tree.id.0 as int) < loader.len()) {
                        Err(GSymbolError::NameOutOfRange)
                    } else {
                        let csrc = loader[tree.id.0 as int];
                        match s_gen_nodes(tree.nodes, 0, loader, csrc, g_empty_scope(), reg) {
                            Err(e) => Err(e),
                            Ok((cscope, reg1)) => {
                                let cid = reg1.len() as int;
                                s_gen_nodes(
                                    nodes,
                                    i + 1,
                                    loader,
                                    src,
                                    GScope {
                                        symbols: scope.symbols,
                                        submodules: scope.submodules.push((nm, cid)),
                                    },
                                    reg1.push(cscope),
                                )
                            },
                        }
                    }
                }
            },
            _ => s_gen_nodes(nodes, i + 1, loader, src, scope, reg),
        }
    }
}

/// Inserts an alias symbol under `nm` into scope `sid`; a second symbol of
/// the same name is a duplicate-symbol failure.
pub open spec fn s_insert_alias(reg: Seq<GScope>, sid: int, nm: Seq<u8>, target: int) -> Result<
    Seq<GScope>,
    GSymbolError,
> {
    if !(0 <= sid < reg.len()) {
        Err(GSymbolError::NameOutOfRange)
    } else if g_sym_has(reg[sid], nm) {
        Err(GSymbolError::DuplicateSymbol { name: nm })
    } else {
        Ok(
            reg.update(
                sid,
                GScope {
                    symbols: reg[sid].symbols.push((nm, GSymbol::Alias(target))),
                    submodules: reg[sid].submodules,
                },
            ),
        )
    }
}

/// Walks the segments `j..end` of a using path: each must be a plain name
/// without generics, selecting a nested submodule from the current scope.
pub open spec fn s_walk_segments(
    gp: crate::ast::GPath,
    j: int,
    end: int,
    src: Seq<u8>,
    cur: int,
    reg: Seq<GScope>,
) -> Result<int, GSymbolError>
    decreases end - j,
{
    if !(0 <= j < end) {
        Ok(cur)
    } else if !(0 <= cur < reg.len()) {
        Err(GSymbolError::NameOutOfRange)
    } else {
        match gp[j] {
            crate::ast::GPathNode::Singly { name, generics } => {
                if generics.len() != 0 {
                    Err(GSymbolError::GenericsOnUsingPath)
                } else if !(name.begin <= name.end <= src.len()) {
                    Err(GSymbolError::NameOutOfRange)
                } else {
                    let nm = src.subrange(name.begin as int, name.end as int);
                    match g_sub_find(reg[cur].submodules, nm) {
                        None => Err(GSymbolError::UnresolvedUsing { name: nm }),
                        Some(nx) => s_walk_segments(gp, j + 1, end, src, nx, reg),
                    }
                }
            },
            crate::ast::GPathNode::Multi(_) => Err(GSymbolError::NonModuleOnPath),
        }
    }
}

/// Resolves the grouped paths of a trailing group, one alias per path, each
/// walked from the scope the leading segments reached. A nested group inside
/// a group is refused as a non-module path piece.
pub open spec fn s_use_multi(
    ps: Seq<crate::ast::GPath>,
    k: int,
    src: Seq<u8>,
    cur: int,
    sid: int,
    reg: Seq<GScope>,
) -> Result<Seq<GScope>, GSymbolError>
    decreases ps.len() - k,
{
    if !(0 <= k < ps.len()) {
        Ok(reg)
    } else {
        let sub = ps[k];
        if sub.len() == 0 {
            Err(GSymbolError::EmptyUsingPath)
        } else {
            match s_walk_segments(sub, 0, sub.len() - 1, src, cur, reg) {
                Err(e) => Err(e),
                Ok(c2) => {
                    match sub[sub.len() - 1] {
                        crate::ast::GPathNode::Singly { name, generics } => {
                            if generics.len() != 0 {
                                Err(GSymbolError::GenericsOnUsingPath)
                            } else if !(name.begin <= name.end <= src.len()) {
                                Err(GSymbolError::NameOutOfRange)
                            } else {
                                let nm = src.subrange(name.begin as int, name.end as int);
                                match s_insert_alias(reg, sid, nm, c2) {
                                    Err(e) => Err(e),
                                    Ok(reg1) => {
                                        if reg1.len() == reg.len() {
                                            s_use_multi(ps, k + 1, src, cur, sid, reg1)
                                        } else {
                                            Err(GSymbolError::NameOutOfRange)
                                        }
                                    },
                                }
                            }
                        },
                        crate::ast::GPathNode::Multi(_) => Err(GSymbolError::NonModuleOnPath),
                    }
                },
            }
        }
    }
}

/// Resolves one `using` path against scope `sid`: all but the last segment
/// select nested submodules; the last segment's name is inserted into the
/// scope's symbols as an alias of the scope the walk reached. A trailing
/// group expands into one alias per grouped path.
pub open spec fn s_use_path(
    gp: crate::ast::GPath,
    src: Seq<u8>,
    sid: int,
    reg: Seq<GScope>,
) -> Result<Seq<GScope>, GSymbolError> {
    if gp.len() == 0 {
        Err(GSymbolError::EmptyUsingPath)
    } else {
        match s_walk_segments(gp, 0, gp.len() - 1, src, sid, reg) {
            Err(e) => Err(e),
            Ok(cur) => {
                match gp[gp.len() - 1] {
                    crate::ast::GPathNode::Singly { name, generics } => {
                        if generics.len() != 0 {
                            Err(GSymbolError::GenericsOnUsingPath)
                        } else if !(name.begin <= name.end <= src.len()) {
                            Err(GSymbolError::NameOutOfRange)
                        } else {
                            let nm = src.subrange(name.begin as int, name.end as int);
                            s_insert_alias(reg, sid, nm, cur)
                        }
                    },
                    crate::ast::GPathNode::Multi(ps) => s_use_multi(ps, 0, src, cur, sid, reg),
                }
            },
        }
    }
}

/// Pass 2 of the symbol-tree builder, from node `i` on: each `using`
/// statement of the scope's own file becomes an alias, and each module
/// statement recurses into its child scope with the child's own file as the
/// active source slice. Only symbols change; the registry's length and its
/// submodule edges stay as pass 1 built them.
pub open spec fn s_import_nodes(
    nodes: Seq<GNode>,
    i: int,
    loader: Seq<Seq<u8>>,
    src: Seq<u8>,
    sid: int,
    reg: Seq<GScope>,
) -> Result<Seq<GScope>, GSymbolError>
    decreases nodes, nodes.len() - i,
{
    if !(0 <= i < nodes.len()) {
        Ok(reg)
    } else if !(0 <= sid < reg.len()) {
        Err(GSymbolError::NameOutOfRange)
    } else {
        match nodes[i] {
            GNode::UsingStatement { using } => {
                match s_use_path(using, src, sid, reg) {
                    Err(e) => Err(e),
                    Ok(reg1) => {
                        if reg1.len() == reg.len() {
                            s_import_nodes(nodes, i + 1, loader, src, sid, reg1)
                        } else {
                            Err(GSymbolError::NameOutOfRange)
                        }
                    },
                }
            },
            GNode::ModStatement { name, tree } => {
                if !(name.begin <= name.end <= src.len()) {
                    Err(GSymbolError::NameOutOfRange)
                } else {
                    let nm = src.subrange(name.begin as int, name.end as int);
                    match g_sub_find(reg[sid].submodules, nm) {
                        None => Err(GSymbolError::UnresolvedUsing { name: nm }),
                        Some(cid) => {
                            if !((tree.id.0 as int) < loader.len()) {
                                Err(GSymbolError::NameOutOfRange)
                            } else {
                                let csrc = loader[tree.id.0 as int];
                                match s_import_nodes(tree.nodes, 0, loader, csrc, cid, reg) {
                                    Err(e) => Err(e),
                                    Ok(reg1) => {
                                        if reg1.len() == reg.len() {
                                            s_import_nodes(nodes, i + 1, loader, src, sid, reg1)
                                        } else {
                                            Err(GSymbolError::NameOutOfRange)
                                        }
                                    },
                                }
                            }
                        },
                    }
                }
            },
            _ => s_import_nodes(nodes, i + 1, loader, src, sid, reg),
        }
    }
}

/// The whole symbol-tree build: pass 1 files declarations and submodule
/// scopes, the root scope is appended last, then pass 2 resolves every
/// `using` path to an alias.
pub open spec fn s_generate(gt: GTree, loader: Seq<Seq<u8>>) -> Result<
    (Seq<GScope>, int),
    GSymbolError,
> {
    if !((gt.id.0 as int) < loader.len()) {
        Err(GSymbolError::NameOutOfRange)
    } else {
        let src = loader[gt.id.0 as int];
        match s_gen_nodes(gt.nodes, 0, loader, src, g_empty_scope(), Seq::empty()) {
            Err(e) => Err(e),
            Ok((root_scope, reg)) => {
                let rootid = reg.len() as int;
                match s_import_nodes(gt.nodes, 0, loader, src, rootid, reg.push(root_scope)) {
                    Err(e) => Err(e),
                    Ok(reg2) => Ok((reg2, rootid)),
                }
            },
        }
    }
}

/// Module determinism: the scope graph is a function of the parsed tree and
/// the file store alone, so two builds over identical file trees yield the
/// same specification-level scope graph: the same symbol names, the same
/// submodule names and edges, and the same classifications, scope for scope.
pub proof fn lemma_module_determinism(
    gt: GTree,
    loader: Seq<Seq<u8>>,
    r1: Result<(Seq<GScope>, int), GSymbolError>,
    r2: Result<(Seq<GScope>, int), GSymbolError>,
)
    requires
        r1 == s_generate(gt, loader),
        r2 == s_generate(gt, loader),
    ensures
        r1 == r2,
{
}


/// Reads a name span into owned bytes; a span outside the source reads as the
/// empty name.
fn span_name(sp: Span, src: &Vec<u8>) -> (r: Vec<u8>)
    ensures
        r@ == s_span_name(sp, src@),
{
    if sp.begin <= sp.end && sp.end <= src.len() {
        let s = sp.parse(src.as_slice());
        vstd::slice::slice_to_vec(s)
    } else {
        Vec::new()
    }
}

/// Classifies a declaration's parameters: each name with its classified type.
fn classify_params(params: &FunctionDeclarationParameters, src: &Vec<u8>) -> (r: Vec<
    (Vec<u8>, Type),
>)
    ensures
        r@.len() == params.0@.len(),
        forall|i: int|
            0 <= i < params.0@.len() ==> (#[trigger] r@[i]).0@ == s_span_name(
                params.0@[i].name,
                src@,
            ) && gtype_models(r@[i].1, crate::semantic::s_classify_path(params.0@[i].arg_type, src@)),
{
    let mut out: Vec<(Vec<u8>, Type)> = Vec::new();
    let mut i: usize = 0;
    while i < params.0.len()
        invariant
            0 <= i <= params.0@.len(),
            out@.len() == i,
            forall|j: int|
                0 <= j < i ==> (#[trigger] out@[j]).0@ == s_span_name(params.0@[j].name, src@)
                    && gtype_models(
                    out@[j].1,
                    crate::semantic::s_classify_path(params.0@[j].arg_type, src@),
                ),
        decreases params.0@.len() - i,
    {
        let nm = span_name(params.0[i].name, src);
        let ty = classify_path(&params.0[i].arg_type, src);
        out.push((nm, ty));
        i = i + 1;
    }
    out
}

/// Whether the scope already holds a symbol under this name.
fn sym_has(scope: &ModuleScope, nm: &Vec<u8>, Ghost(g): Ghost<GScope>) -> (r: bool)
    requires
        scope_models(*scope, g),
    ensures
        r == g_sym_has(g, nm@),
{
    let mut i: usize = 0;
    while i < scope.symbols.len()
        invariant
            0 <= i <= scope.symbols@.len(),
            scope_models(*scope, g),
            forall|j: int| 0 <= j < i ==> (#[trigger] g.symbols[j]).0 != nm@,
        decreases scope.symbols@.len() - i,
    {
        if bytes_eq(&scope.symbols[i].0, nm) {
            proof {
                assert(g.symbols[i as int].0 == nm@);
            }
            return true;
        }
        i = i + 1;
    }
    false
}

/// Whether the scope already holds a submodule under this name.
fn sub_has(scope: &ModuleScope, nm: &Vec<u8>, Ghost(g): Ghost<GScope>) -> (r: bool)
    requires
        scope_models(*scope, g),
    ensures
        r == g_sub_has(g, nm@),
{
    let mut i: usize = 0;
    while i < scope.submodules.len()
        invariant
            0 <= i <= scope.submodules@.len(),
            scope_models(*scope, g),
            forall|j: int| 0 <= j < i ==> (#[trigger] g.submodules[j]).0 != nm@,
        decreases scope.submodules@.len() - i,
    {
        if bytes_eq(&scope.submodules[i].0, nm) {
            proof {
                assert(g.submodules[i as int].0 == nm@);
            }
            return true;
        }
        i = i + 1;
    }
    false
}

/// The first submodule entry under this name, if any.
fn sub_find(scope: &ModuleScope, nm: &Vec<u8>, Ghost(g): Ghost<GScope>) -> (r: Option<usize>)
    requires
        scope_models(*scope, g),
    ensures
        (match g_sub_find(g.submodules, nm@) {
            None => r is None,
            Some(t) => r matches Some(u) && u as int == t,
        }),
{
    let mut i: usize = 0;
    proof {
        assert(g.submodules.skip(0) =~= g.submodules);
    }
    while i < scope.submodules.len()
        invariant
            0 <= i <= scope.submodules@.len(),
            scope_models(*scope, g),
            g_sub_find(g.submodules, nm@) == g_sub_find(g.submodules.skip(i as int), nm@),
        decreases scope.submodules@.len() - i,
    {
        proof {
            assert(g.submodules.skip(i as int)[0] == g.submodules[i as int]);
            assert(g.submodules.skip(i as int).drop_first() =~= g.submodules.skip(i + 1));
        }
        if bytes_eq(&scope.submodules[i].0, nm) {
            return Some(scope.submodules[i].1);
        }
        i = i + 1;
    }
    proof {
        assert(g.submodules.skip(scope.submodules@.len() as int) =~= Seq::<(Seq<u8>, int)>::empty());
    }
    None
}

/// Pass 1 of the symbol-tree builder over the nodes from `i` on.
#[verifier::rlimit(100)]
#[verifier::spinoff_prover]
fn gen_nodes(
    nodes: &Vec<ASTNode>,
    i: usize,
    loader: &FileLoader,
    src: &Vec<u8>,
    scope: ModuleScope,
    reg: Vec<ModuleScope>,
    Ghost(gnodes): Ghost<Seq<GNode>>,
    Ghost(gscope): Ghost<GScope>,
    Ghost(greg): Ghost<Seq<GScope>>,
) -> (r: Result<(ModuleScope, Vec<ModuleScope>), SymbolError>)
    requires
        nodes_models(nodes@, gnodes),
        i <= nodes.len(),
        scope_models(scope, gscope),
        scopes_models(reg@, greg),
    ensures
        (match (r, s_gen_nodes(gnodes, i as int, loader@, src@, gscope, greg)) {
            (Ok((s2, r2)), Ok((gs2, gr2))) => scope_models(s2, gs2) && scopes_models(r2@, gr2),
            (Err(a), Err(b)) => serr_models(a, b),
            _ => false,
        }),
    decreases gnodes, nodes@.len() - i,
{
    if i >= nodes.len() {
        return Ok((scope, reg));
    }
    match &nodes[i] {
        ASTNode::FunctionDeclaration { name, generics, params, block, out_type } => {
            if !(name.begin <= name.end && name.end <= src.len()) {
                return Err(SymbolError::NameOutOfRange);
            }
            let nm = span_name(*name, src);
            if sym_has(&scope, &nm, Ghost(gscope)) {
                return Err(SymbolError::DuplicateSymbol { name: nm });
            }
            let cps = classify_params(params, src);
            let ret = Type::from_path(out_type, src);
            let ghost (gparams, gout) = (match gnodes[i as int] {
                GNode::FunctionDeclaration { params, out_type, .. } => (params, out_type),
                _ => arbitrary(),
            });
            let ghost gsym = GSymbol::Function {
                params: s_classify_gparams(gparams, src@),
                return_type: s_classify_gopt(gout, src@),
            };
            proof {
                lemma_classify_opt_models(
                    (match gnodes[i as int] {
                        GNode::FunctionDeclaration { .. } => *out_type,
                        _ => arbitrary(),
                    }),
                    gout,
                    src@,
                );
                assert(gparams_list_models(cps@, s_classify_gparams(gparams, src@))) by {
                    assert(params_models(*params, gparams));
                    assert forall|k: int| 0 <= k < gparams.len() implies cps@[k].0@ == (
                    #[trigger] s_classify_gparams(gparams, src@)[k]).0 && gtype_models(
                        cps@[k].1,
                        s_classify_gparams(gparams, src@)[k].1,
                    ) by {
                        assert(params.0@[k].name == gparams[k].name);
                        assert(path_models(params.0@[k].arg_type, gparams[k].arg_type));
                        lemma_classify_models(params.0@[k].arg_type, gparams[k].arg_type, src@);
                    }
                }
            }
            let mut scope = scope;
            scope.symbols.push((nm, Symbol::Function { params: cps, return_type: ret }));
            let ghost gscope2 = GScope {
                symbols: gscope.symbols.push((s_span_name(*name, src@), gsym)),
                submodules: gscope.submodules,
            };
            proof {
                assert(scope_models(scope, gscope2)) by {
                    assert forall|k: int|
                        0 <= k < gscope2.symbols.len() implies scope.symbols@[k].0@ == (
                    #[trigger] gscope2.symbols[k]).0 && sym_models(
                        scope.symbols@[k].1,
                        gscope2.symbols[k].1,
                    ) by {
                        if k < gscope.symbols.len() {
                            assert(scope.symbols@[k] == old_sym_at(scope.symbols@, k));
                        }
                    }
                }
            }
            gen_nodes(nodes, i + 1, loader, src, scope, reg, Ghost(gnodes), Ghost(gscope2), Ghost(greg))
        },
        ASTNode::ViewportDeclaration { name, params, block } => {
            if !(name.begin <= name.end && name.end <= src.len()) {
                return Err(SymbolError::NameOutOfRange);
            }
            let nm = span_name(*name, src);
            if sym_has(&scope, &nm, Ghost(gscope)) {
                return Err(SymbolError::DuplicateSymbol { name: nm });
            }
            let cps = classify_params(params, src);
            let ghost gparams = (match gnodes[i as int] {
                GNode::ViewportDeclaration { params, .. } => params,
                _ => arbitrary(),
            });
            let ghost gsym = GSymbol::Viewport { params: s_classify_gparams(gparams, src@) };
            proof {
                assert(gparams_list_models(cps@, s_classify_gparams(gparams, src@))) by {
                    assert(params_models(*params, gparams));
                    assert forall|k: int| 0 <= k < gparams.len() implies cps@[k].0@ == (
                    #[trigger] s_classify_gparams(gparams, src@)[k]).0 && gtype_models(
                        cps@[k].1,
                        s_classify_gparams(gparams, src@)[k].1,
                    ) by {
                        assert(params.0@[k].name == gparams[k].name);
                        assert(path_models(params.0@[k].arg_type, gparams[k].arg_type));
                        lemma_classify_models(params.0@[k].arg_type, gparams[k].arg_type, src@);
                    }
                }
            }
            let mut scope = scope;
            scope.symbols.push((nm, Symbol::Viewport { params: cps }));
            let ghost gscope2 = GScope {
                symbols: gscope.symbols.push((s_span_name(*name, src@), gsym)),
                submodules: gscope.submodules,
            };
            proof {
                assert(scope_models(scope, gscope2)) by {
                    assert forall|k: int|
                        0 <= k < gscope2.symbols.len() implies scope.symbols@[k].0@ == (
                    #[trigger] gscope2.symbols[k]).0 && sym_models(
                        scope.symbols@[k].1,
                        gscope2.symbols[k].1,
                    ) by {
                        if k < gscope.symbols.len() {
                            assert(scope.symbols@[k] == old_sym_at(scope.symbols@, k));
                        }
                    }
                }
            }
            gen_nodes(nodes, i + 1, loader, src, scope, reg, Ghost(gnodes), Ghost(gscope2), Ghost(greg))
        },
        ASTNode::ModStatement { name, tree } => {
            if !(name.begin <= name.end && name.end <= src.len()) {
                return Err(SymbolError::NameOutOfRange);
            }
            let nm = span_name(*name, src);
            if sub_has(&scope, &nm, Ghost(gscope)) {
                return Err(SymbolError::DuplicateSymbol { name: nm });
            }
            let ghost gtc = (match gnodes[i as int] {
                GNode::ModStatement { tree, .. } => tree,
                _ => arbitrary(),
            });
            proof {
                assert(tree_models(*tree, gtc));
                assert(nodes_models(tree.stream@, gtc.nodes));
                assert(loader@.len() == loader.store@.len());
                assert(loader.store.len() == loader.store@.len());
            }
            if !(tree.id.0 < loader.store.len()) {
                return Err(SymbolError::NameOutOfRange);
            }
            let csrc = clone_bytes(loader.load(tree.id));
            let empty = ModuleScope { symbols: Vec::new(), submodules: Vec::new() };
            proof {
                assert(scope_models(empty, g_empty_scope()));
            }
            match gen_nodes(
                &tree.stream,
                0,
                loader,
                &csrc,
                empty,
                reg,
                Ghost(gtc.nodes),
                Ghost(g_empty_scope()),
                Ghost(greg),
            ) {
                Err(e) => Err(e),
                Ok((cscope, mut reg1)) => {
                    let ghost (gcscope, greg1) = (match s_gen_nodes(
                        gtc.nodes,
                        0,
                        loader@,
                        csrc@,
                        g_empty_scope(),
                        greg,
                    ) {
                        Ok(v) => v,
                        Err(_) => arbitrary(),
                    });
                    let cid = reg1.len();
                    reg1.push(cscope);
                    let mut scope = scope;
                    scope.submodules.push((nm, cid));
                    let ghost gscope2 = GScope {
                        symbols: gscope.symbols,
                        submodules: gscope.submodules.push((s_span_name(*name, src@), greg1.len() as int)),
                    };
                    let ghost greg2 = greg1.push(gcscope);
                    proof {
                        assert(scope_models(scope, gscope2)) by {
                            assert forall|k: int|
                                0 <= k < gscope2.submodules.len() implies scope.submodules@[k].0@
                                == (#[trigger] gscope2.submodules[k]).0 && scope.submodules@[k].1
                                as int == gscope2.submodules[k].1 by {
                                if k < gscope.submodules.len() {
                                    assert(scope.submodules@[k] == old_sub_at(scope.submodules@, k));
                                }
                            }
                        }
                        assert(scopes_models(reg1@, greg2)) by {
                            assert forall|k: int|
                                0 <= k < greg2.len() implies scope_models(
                                reg1@[k],
                                #[trigger] greg2[k],
                            ) by {
                                if k < greg1.len() {
                                    assert(reg1@[k] == old_scope_at(reg1@, k));
                                }
                            }
                        }
                    }
                    gen_nodes(
                        nodes,
                        i + 1,
                        loader,
                        src,
                        scope,
                        reg1,
                        Ghost(gnodes),
                        Ghost(gscope2),
                        Ghost(greg2),
                    )
                },
            }
        },
        _ => gen_nodes(nodes, i + 1, loader, src, scope, reg, Ghost(gnodes), Ghost(gscope), Ghost(greg)),
    }
}

/// Identity helper that keeps indexing stable inside pointwise proofs.
pub open spec fn old_sym_at(s: Seq<(Vec<u8>, Symbol)>, k: int) -> (Vec<u8>, Symbol) {
    s[k]
}

pub open spec fn old_sub_at(s: Seq<(Vec<u8>, usize)>, k: int) -> (Vec<u8>, usize) {
    s[k]
}

pub open spec fn old_scope_at(s: Seq<ModuleScope>, k: int) -> ModuleScope {
    s[k]
}


/// Inserts an alias symbol into scope `sid`.
fn insert_alias(
    reg: Vec<ModuleScope>,
    sid: usize,
    nm: Vec<u8>,
    target: usize,
    Ghost(greg): Ghost<Seq<GScope>>,
) -> (r: Result<Vec<ModuleScope>, SymbolError>)
    requires
        scopes_models(reg@, greg),
    ensures
        (match (r, s_insert_alias(greg, sid as int, nm@, target as int)) {
            (Ok(r2), Ok(g2)) => scopes_models(r2@, g2) && r2@.len() == reg@.len(),
            (Err(a), Err(b)) => serr_models(a, b),
            _ => false,
        }),
{
    if !(sid < reg.len()) {
        return Err(SymbolError::NameOutOfRange);
    }
    if sym_has(&reg[sid], &nm, Ghost(greg[sid as int])) {
        return Err(SymbolError::DuplicateSymbol { name: nm });
    }
    let ghost before = reg@;
    let ghost nmv = nm@;
    let mut reg = reg;
    let mut sc = reg.remove(sid);
    let ghost gsc = greg[sid as int];
    sc.symbols.push((nm, Symbol::Alias(target)));
    let ghost gsc2 = GScope {
        symbols: gsc.symbols.push((nmv, GSymbol::Alias(target as int))),
        submodules: gsc.submodules,
    };
    proof {
        assert(scope_models(sc, gsc2)) by {
            assert forall|k: int|
                0 <= k < gsc2.symbols.len() implies sc.symbols@[k].0@ == (
            #[trigger] gsc2.symbols[k]).0 && sym_models(sc.symbols@[k].1, gsc2.symbols[k].1) by {
                if k < gsc.symbols.len() {
                    assert(sc.symbols@[k] == old_sym_at(sc.symbols@, k));
                }
            }
        }
    }
    reg.insert(sid, sc);
    let ghost greg2 = greg.update(sid as int, gsc2);
    proof {
        assert(reg@ =~= before.update(sid as int, sc));
        assert(scopes_models(reg@, greg2)) by {
            assert forall|k: int| 0 <= k < greg2.len() implies scope_models(
                reg@[k],
                #[trigger] greg2[k],
            ) by {
                if k != sid as int {
                    assert(reg@[k] == before[k]);
                }
            }
        }
    }
    Ok(reg)
}

/// Walks the segments `j..end` of a using path through nested submodules.
fn walk_segments(
    p: &Path,
    j: usize,
    end: usize,
    src: &Vec<u8>,
    cur: usize,
    reg: &Vec<ModuleScope>,
    Ghost(gp): Ghost<crate::ast::GPath>,
    Ghost(greg): Ghost<Seq<GScope>>,
) -> (r: Result<usize, SymbolError>)
    requires
        path_models(*p, gp),
        end <= p.0@.len(),
        scopes_models(reg@, greg),
    ensures
        (match (r, s_walk_segments(gp, j as int, end as int, src@, cur as int, greg)) {
            (Ok(u), Ok(t)) => u as int == t,
            (Err(a), Err(b)) => serr_models(a, b),
            _ => false,
        }),
    decreases end - j,
{
    if !(j < end) {
        return Ok(cur);
    }
    if !(cur < reg.len()) {
        return Err(SymbolError::NameOutOfRange);
    }
    proof {
        assert(crate::ast::pathnode_models(p.0@[j as int], gp[j as int]));
    }
    match &p.0[j] {
        PathNode::Singly { name, generics } => {
            if generics.0.len() != 0 {
                Err(SymbolError::GenericsOnUsingPath)
            } else if !(name.begin <= name.end && name.end <= src.len()) {
                Err(SymbolError::NameOutOfRange)
            } else {
                let nm = span_name(*name, src);
                match sub_find(&reg[cur], &nm, Ghost(greg[cur as int])) {
                    None => Err(SymbolError::UnresolvedUsing { name: nm }),
                    Some(nx) => walk_segments(p, j + 1, end, src, nx, reg, Ghost(gp), Ghost(greg)),
                }
            }
        },
        PathNode::Multi(_) => Err(SymbolError::NonModuleOnPath),
    }
}

/// Resolves each grouped path of a trailing group to one alias.
fn use_multi(
    ps: &Vec<Path>,
    k: usize,
    src: &Vec<u8>,
    cur: usize,
    sid: usize,
    reg: Vec<ModuleScope>,
    Ghost(gps): Ghost<Seq<crate::ast::GPath>>,
    Ghost(greg): Ghost<Seq<GScope>>,
) -> (r: Result<Vec<ModuleScope>, SymbolError>)
    requires
        ps@.len() == gps.len(),
        forall|i: int| 0 <= i < gps.len() ==> path_models(ps@[i], #[trigger] gps[i]),
        scopes_models(reg@, greg),
    ensures
        (match (r, s_use_multi(gps, k as int, src@, cur as int, sid as int, greg)) {
            (Ok(r2), Ok(g2)) => scopes_models(r2@, g2),
            (Err(a), Err(b)) => serr_models(a, b),
            _ => false,
        }),
    decreases ps@.len() - k,
{
    if !(k < ps.len()) {
        return Ok(reg);
    }
    let sub = &ps[k];
    proof {
        assert(path_models(ps@[k as int], gps[k as int]));
    }
    if sub.0.len() == 0 {
        return Err(SymbolError::EmptyUsingPath);
    }
    let last = sub.0.len() - 1;
    match walk_segments(sub, 0, last, src, cur, &reg, Ghost(gps[k as int]), Ghost(greg)) {
        Err(e) => Err(e),
        Ok(c2) => {
            proof {
                assert(crate::ast::pathnode_models(sub.0@[last as int], gps[k as int][last as int]));
            }
            match &sub.0[last] {
                PathNode::Singly { name, generics } => {
                    if generics.0.len() != 0 {
                        Err(SymbolError::GenericsOnUsingPath)
                    } else if !(name.begin <= name.end && name.end <= src.len()) {
                        Err(SymbolError::NameOutOfRange)
                    } else {
                        let nm = span_name(*name, src);
                        let ghost before_len = reg@.len();
                        match insert_alias(reg, sid, nm, c2, Ghost(greg)) {
                            Err(e) => Err(e),
                            Ok(reg1) => {
                                let ghost greg1 = (match s_insert_alias(
                                    greg,
                                    sid as int,
                                    s_span_name(
                                        (match gps[k as int][last as int] {
                                            crate::ast::GPathNode::Singly { name, .. } => name,
                                            _ => arbitrary(),
                                        }),
                                        src@,
                                    ),
                                    c2 as int,
                                ) {
                                    Ok(g) => g,
                                    Err(_) => arbitrary(),
                                });
                                use_multi(ps, k + 1, src, cur, sid, reg1, Ghost(gps), Ghost(greg1))
                            },
                        }
                    }
                },
                PathNode::Multi(_) => Err(SymbolError::NonModuleOnPath),
            }
        },
    }
}

/// Resolves one `using` path against scope `sid`.
fn use_path(
    p: &Path,
    src: &Vec<u8>,
    sid: usize,
    reg: Vec<ModuleScope>,
    Ghost(gp): Ghost<crate::ast::GPath>,
    Ghost(greg): Ghost<Seq<GScope>>,
) -> (r: Result<Vec<ModuleScope>, SymbolError>)
    requires
        path_models(*p, gp),
        scopes_models(reg@, greg),
    ensures
        (match (r, s_use_path(gp, src@, sid as int, greg)) {
            (Ok(r2), Ok(g2)) => scopes_models(r2@, g2) && r2@.len() == reg@.len(),
            (Err(a), Err(b)) => serr_models(a, b),
            _ => false,
        }),
{
    if p.0.len() == 0 {
        return Err(SymbolError::EmptyUsingPath);
    }
    let last = p.0.len() - 1;
    match walk_segments(p, 0, last, src, sid, &reg, Ghost(gp), Ghost(greg)) {
        Err(e) => Err(e),
        Ok(cur) => {
            proof {
                assert(crate::ast::pathnode_models(p.0@[last as int], gp[last as int]));
            }
            match &p.0[last] {
                PathNode::Singly { name, generics } => {
                    if generics.0.len() != 0 {
                        Err(SymbolError::GenericsOnUsingPath)
                    } else if !(name.begin <= name.end && name.end <= src.len()) {
                        Err(SymbolError::NameOutOfRange)
                    } else {
                        let nm = span_name(*name, src);
                        insert_alias(reg, sid, nm, cur, Ghost(greg))
                    }
                },
                PathNode::Multi(ps) => {
                    let ghost gsubs = (match gp[last as int] {
                        crate::ast::GPathNode::Multi(gs) => gs,
                        _ => arbitrary(),
                    });
                    let ghost before_len = reg@.len();
                    let r = use_multi(ps, 0, src, cur, sid, reg, Ghost(gsubs), Ghost(greg));
                    proof {
                        if let Ok(ref r2) = r {
                            if let Ok(g2) = s_use_multi(
                                gsubs,
                                0,
                                src@,
                                cur as int,
                                sid as int,
                                greg,
                            ) {
                                lemma_use_multi_len(gsubs, 0, src@, cur as int, sid as int, greg);
                            }
                        }
                    }
                    r
                },
            }
        },
    }
}

/// The registry's length never changes while grouped paths resolve.
proof fn lemma_use_multi_len(
    ps: Seq<crate::ast::GPath>,
    k: int,
    src: Seq<u8>,
    cur: int,
    sid: int,
    reg: Seq<GScope>,
)
    ensures
        (match s_use_multi(ps, k, src, cur, sid, reg) {
            Ok(g2) => g2.len() == reg.len(),
            Err(_) => true,
        }),
    decreases ps.len() - k,
{
    if 0 <= k < ps.len() {
        let sub = ps[k];
        if sub.len() > 0 {
            match s_walk_segments(sub, 0, sub.len() - 1, src, cur, reg) {
                Err(_) => {},
                Ok(c2) => {
                    match sub[sub.len() - 1] {
                        crate::ast::GPathNode::Singly { name, generics } => {
                            if generics.len() == 0 && name.begin <= name.end <= src.len() {
                                let nm = src.subrange(name.begin as int, name.end as int);
                                match s_insert_alias(reg, sid, nm, c2) {
                                    Err(_) => {},
                                    Ok(reg1) => {
                                        if reg1.len() == reg.len() {
                                            lemma_use_multi_len(ps, k + 1, src, cur, sid, reg1);
                                        }
                                    },
                                }
                            }
                        },
                        crate::ast::GPathNode::Multi(_) => {},
                    }
                },
            }
        }
    }
}

/// Pass 2 of the symbol-tree builder over the nodes from `i` on.
#[verifier::rlimit(100)]
#[verifier::spinoff_prover]
fn import_nodes(
    nodes: &Vec<ASTNode>,
    i: usize,
    loader: &FileLoader,
    src: &Vec<u8>,
    sid: usize,
    reg: Vec<ModuleScope>,
    Ghost(gnodes): Ghost<Seq<GNode>>,
    Ghost(greg): Ghost<Seq<GScope>>,
) -> (r: Result<Vec<ModuleScope>, SymbolError>)
    requires
        nodes_models(nodes@, gnodes),
        i <= nodes.len(),
        scopes_models(reg@, greg),
    ensures
        (match (r, s_import_nodes(gnodes, i as int, loader@, src@, sid as int, greg)) {
            (Ok(r2), Ok(g2)) => scopes_models(r2@, g2),
            (Err(a), Err(b)) => serr_models(a, b),
            _ => false,
        }),
    decreases gnodes, nodes@.len() - i,
{
    if i >= nodes.len() {
        return Ok(reg);
    }
    if !(sid < reg.len()) {
        return Err(SymbolError::NameOutOfRange);
    }
    match &nodes[i] {
        ASTNode::UsingStatement { using } => {
            let ghost gusing = (match gnodes[i as int] {
                GNode::UsingStatement { using } => using,
                _ => arbitrary(),
            });
            let ghost before_len = reg@.len();
            match use_path(using, src, sid, reg, Ghost(gusing), Ghost(greg)) {
                Err(e) => Err(e),
                Ok(reg1) => {
                    let ghost greg1 = (match s_use_path(gusing, src@, sid as int, greg) {
                        Ok(g) => g,
                        Err(_) => arbitrary(),
                    });
                    import_nodes(nodes, i + 1, loader, src, sid, reg1, Ghost(gnodes), Ghost(greg1))
                },
            }
        },
        ASTNode::ModStatement { name, tree } => {
            if !(name.begin <= name.end && name.end <= src.len()) {
                return Err(SymbolError::NameOutOfRange);
            }
            let nm = span_name(*name, src);
            let ghost gtc = (match gnodes[i as int] {
                GNode::ModStatement { tree, .. } => tree,
                _ => arbitrary(),
            });
            proof {
                assert(tree_models(*tree, gtc));
                assert(nodes_models(tree.stream@, gtc.nodes));
                assert(loader@.len() == loader.store@.len());
                assert(loader.store.len() == loader.store@.len());
            }
            match sub_find(&reg[sid], &nm, Ghost(greg[sid as int])) {
                None => Err(SymbolError::UnresolvedUsing { name: nm }),
                Some(cid) => {
                    if !(tree.id.0 < loader.store.len()) {
                        return Err(SymbolError::NameOutOfRange);
                    }
                    let csrc = clone_bytes(loader.load(tree.id));
                    let before_len: usize = reg.len();
                    match import_nodes(
                        &tree.stream,
                        0,
                        loader,
                        &csrc,
                        cid,
                        reg,
                        Ghost(gtc.nodes),
                        Ghost(greg),
                    ) {
                        Err(e) => Err(e),
                        Ok(reg1) => {
                            let ghost greg1 = (match s_import_nodes(
                                gtc.nodes,
                                0,
                                loader@,
                                csrc@,
                                cid as int,
                                greg,
                            ) {
                                Ok(g) => g,
                                Err(_) => arbitrary(),
                            });
                            if reg1.len() != before_len {
                                return Err(SymbolError::NameOutOfRange);
                            }
                            import_nodes(
                                nodes,
                                i + 1,
                                loader,
                                src,
                                sid,
                                reg1,
                                Ghost(gnodes),
                                Ghost(greg1),
                            )
                        },
                    }
                },
            }
        },
        _ => import_nodes(nodes, i + 1, loader, src, sid, reg, Ghost(gnodes), Ghost(greg)),
    }
}

impl GlobalSymbolTree {
    pub fn new() -> (r: GlobalSymbolTree)
        ensures
            r.scopes@.len() == 1,
            r.scopes@[0].symbols@.len() == 0,
            r.scopes@[0].submodules@.len() == 0,
            r.root == 0,
    {
        let rootscope = ModuleScope { symbols: Vec::new(), submodules: Vec::new() };
        let mut scopes: Vec<ModuleScope> = Vec::new();
        scopes.push(rootscope);
        GlobalSymbolTree { scopes, root: 0 }
    }

    /// Builds the module-scope graph of a parsed compilation: pass 1 files
    /// function and viewport symbols and submodule scopes, switching the
    /// active source slice when entering a module parsed from another file;
    /// pass 2 resolves each `using` path to an alias naming the reached scope
    /// by registry index. A second insertion of a name in a scope is a
    /// duplicate-symbol failure.
    pub fn generate(ast: &ASTTree, loader: &FileLoader, Ghost(gt): Ghost<GTree>) -> (r: Result<
        GlobalSymbolTree,
        SymbolError,
    >)
        requires
            tree_models(*ast, gt),
        ensures
            (match (r, s_generate(gt, loader@)) {
                (Ok(t), Ok((greg, grid))) => scopes_models(t.scopes@, greg) && t.root as int
                    == grid,
                (Err(a), Err(b)) => serr_models(a, b),
                _ => false,
            }),
    {
        proof {
            assert(loader@.len() == loader.store@.len());
            assert(loader.store.len() == loader.store@.len());
        }
        if !(ast.id.0 < loader.store.len()) {
            return Err(SymbolError::NameOutOfRange);
        }
        let src = clone_bytes(loader.load(ast.id));
        let empty = ModuleScope { symbols: Vec::new(), submodules: Vec::new() };
        proof {
            assert(scope_models(empty, g_empty_scope()));
            assert(scopes_models(Seq::<ModuleScope>::empty(), Seq::<GScope>::empty()));
        }
        let reg0: Vec<ModuleScope> = Vec::new();
        proof {
            assert(reg0@ =~= Seq::<ModuleScope>::empty());
        }
        match gen_nodes(
            &ast.stream,
            0,
            loader,
            &src,
            empty,
            reg0,
            Ghost(gt.nodes),
            Ghost(g_empty_scope()),
            Ghost(Seq::empty()),
        ) {
            Err(e) => Err(e),
            Ok((root_scope, mut reg)) => {
                let ghost (groot, greg) = (match s_gen_nodes(
                    gt.nodes,
                    0,
                    loader@,
                    src@,
                    g_empty_scope(),
                    Seq::empty(),
                ) {
                    Ok(v) => v,
                    Err(_) => arbitrary(),
                });
                let rootid = reg.len();
                reg.push(root_scope);
                let ghost greg1 = greg.push(groot);
                proof {
                    assert(scopes_models(reg@, greg1)) by {
                        assert forall|k: int| 0 <= k < greg1.len() implies scope_models(
                            reg@[k],
                            #[trigger] greg1[k],
                        ) by {
                            if k < greg.len() {
                                assert(reg@[k] == old_scope_at(reg@, k));
                            }
                        }
                    }
                }
                match import_nodes(
                    &ast.stream,
                    0,
                    loader,
                    &src,
                    rootid,
                    reg,
                    Ghost(gt.nodes),
                    Ghost(greg1),
                ) {
                    Err(e) => Err(e),
                    Ok(reg2) => Ok(GlobalSymbolTree { scopes: reg2, root: rootid }),
                }
            },
        }
    }
}


// ---------------------------------------------------------------------------
// Alias reachability.
// ---------------------------------------------------------------------------

/// Scope `b` is reachable from scope `a` in at most `k` submodule steps.
pub open spec fn reaches(reg: Seq<GScope>, a: int, b: int, k: nat) -> bool
    decreases k,
{
    a == b || (k > 0 && 0 <= a < reg.len() && exists|j: int|
        0 <= j < reg[a].submodules.len() && reaches(
            reg,
            (#[trigger] reg[a].submodules[j]).1,
            b,
            (k - 1) as nat,
        ))
}

/// Every submodule edge of every scope points at an earlier registry slot.
pub open spec fn reg_edges_ok(reg: Seq<GScope>) -> bool {
    forall|i: int, j: int|
        0 <= i < reg.len() && 0 <= j < (#[trigger] reg[i]).submodules.len() ==> 0 <= (
        #[trigger] reg[i].submodules[j]).1 < i
}

pub open spec fn scope_edges_ok(s: GScope, n: int) -> bool {
    forall|j: int| 0 <= j < s.submodules.len() ==> 0 <= (#[trigger] s.submodules[j]).1 < n
}

pub open spec fn scope_no_alias(s: GScope) -> bool {
    forall|j: int| 0 <= j < s.symbols.len() ==> !((#[trigger] s.symbols[j]).1 is Alias)
}

pub open spec fn reg_no_alias(reg: Seq<GScope>) -> bool {
    forall|i: int| 0 <= i < reg.len() ==> scope_no_alias(#[trigger] reg[i])
}

/// Every alias of every scope names a valid registry slot that submodule
/// traversal reaches from `root`.
pub open spec fn aliases_ok(reg: Seq<GScope>, root: int) -> bool {
    forall|i: int, j: int|
        0 <= i < reg.len() && 0 <= j < (#[trigger] reg[i]).symbols.len() && ((
        #[trigger] reg[i].symbols[j]).1 is Alias) ==> {
            let t = reg[i].symbols[j].1->Alias_0;
            &&& 0 <= t < reg.len()
            &&& exists|k: nat| reaches(reg, root, t, k)
        }
}

/// Two registries with the same submodule edges reach alike.
proof fn lemma_reaches_same_subs(r1: Seq<GScope>, r2: Seq<GScope>, a: int, b: int, k: nat)
    requires
        r1.len() == r2.len(),
        forall|i: int| 0 <= i < r1.len() ==> (#[trigger] r2[i]).submodules == r1[i].submodules,
        reaches(r1, a, b, k),
    ensures
        reaches(r2, a, b, k),
    decreases k,
{
    if a != b {
        let j = choose|j: int|
            0 <= j < r1[a].submodules.len() && reaches(
                r1,
                (#[trigger] r1[a].submodules[j]).1,
                b,
                (k - 1) as nat,
            );
        lemma_reaches_same_subs(r1, r2, r1[a].submodules[j].1, b, (k - 1) as nat);
        assert(r2[a].submodules[j] == r1[a].submodules[j]);
    }
}

/// A step along one more submodule edge extends a reach.
proof fn lemma_reaches_step(reg: Seq<GScope>, a: int, b: int, k: nat, j: int)
    requires
        reaches(reg, a, b, k),
        0 <= b < reg.len(),
        0 <= j < reg[b].submodules.len(),
    ensures
        reaches(reg, a, reg[b].submodules[j].1, (k + 1) as nat),
    decreases k,
{
    let tgt = reg[b].submodules[j].1;
    if a == b {
        assert(reaches(reg, tgt, tgt, k));
        assert(0 <= j < reg[a].submodules.len() && reaches(
            reg,
            reg[a].submodules[j].1,
            tgt,
            k,
        ));
        assert(reaches(reg, a, tgt, (k + 1) as nat));
    } else {
        let j0 = choose|j0: int|
            0 <= j0 < reg[a].submodules.len() && reaches(
                reg,
                (#[trigger] reg[a].submodules[j0]).1,
                b,
                (k - 1) as nat,
            );
        lemma_reaches_step(reg, reg[a].submodules[j0].1, b, (k - 1) as nat, j);
        assert(0 <= j0 < reg[a].submodules.len() && reaches(
            reg,
            reg[a].submodules[j0].1,
            tgt,
            k,
        ));
        assert(reaches(reg, a, tgt, (k + 1) as nat));
    }
}

/// A found submodule entry is one of the scope's edges.
proof fn lemma_sub_find_edge(subs: Seq<(Seq<u8>, int)>, nm: Seq<u8>)
    ensures
        (match g_sub_find(subs, nm) {
            Some(t) => exists|j: int| 0 <= j < subs.len() && (#[trigger] subs[j]).1 == t,
            None => true,
        }),
    decreases subs.len(),
{
    if subs.len() > 0 && subs[0].0 != nm {
        lemma_sub_find_edge(subs.drop_first(), nm);
        if let Some(t) = g_sub_find(subs.drop_first(), nm) {
            let j = choose|j: int|
                0 <= j < subs.drop_first().len() && (#[trigger] subs.drop_first()[j]).1 == t;
            assert(subs[j + 1].1 == t);
        }
    }
}

/// Pass 1 appends scopes whose submodule edges point backward and whose
/// symbols hold no aliases; existing registry entries are untouched.
proof fn lemma_gen_edges(
    nodes: Seq<GNode>,
    i: int,
    loader: Seq<Seq<u8>>,
    src: Seq<u8>,
    scope: GScope,
    reg: Seq<GScope>,
)
    requires
        scope_edges_ok(scope, reg.len() as int),
        scope_no_alias(scope),
        reg_edges_ok(reg),
        reg_no_alias(reg),
    ensures
        (match s_gen_nodes(nodes, i, loader, src, scope, reg) {
            Ok((s2, reg2)) => {
                &&& reg2.len() >= reg.len()
                &&& reg_edges_ok(reg2)
                &&& reg_no_alias(reg2)
                &&& scope_edges_ok(s2, reg2.len() as int)
                &&& scope_no_alias(s2)
            },
            Err(_) => true,
        }),
    decreases nodes, nodes.len() - i,
{
    if 0 <= i < nodes.len() {
        match nodes[i] {
            GNode::FunctionDeclaration { name, generics, params, block, out_type } => {
                if name.begin <= name.end <= src.len() {
                    let nm = src.subrange(name.begin as int, name.end as int);
                    if !g_sym_has(scope, nm) {
                        let sym = GSymbol::Function {
                            params: s_classify_gparams(params, src),
                            return_type: s_classify_gopt(out_type, src),
                        };
                        let scope2 = GScope {
                            symbols: scope.symbols.push((nm, sym)),
                            submodules: scope.submodules,
                        };
                        assert(scope_no_alias(scope2));
                        lemma_gen_edges(nodes, i + 1, loader, src, scope2, reg);
                    }
                }
            },
            GNode::ViewportDeclaration { name, params, block } => {
                if name.begin <= name.end <= src.len() {
                    let nm = src.subrange(name.begin as int, name.end as int);
                    if !g_sym_has(scope, nm) {
                        let sym = GSymbol::Viewport { params: s_classify_gparams(params, src) };
                        let scope2 = GScope {
                            symbols: scope.symbols.push((nm, sym)),
                            submodules: scope.submodules,
                        };
                        assert(scope_no_alias(scope2));
                        lemma_gen_edges(nodes, i + 1, loader, src, scope2, reg);
                    }
                }
            },
            GNode::ModStatement { name, tree } => {
                if name.begin <= name.end <= src.len() {
                    let nm = src.subrange(name.begin as int, name.end as int);
                    if !g_sub_has(scope, nm) && (tree.id.0 as int) < loader.len() {
                        let csrc = loader[tree.id.0 as int];
                        lemma_gen_edges(tree.nodes, 0, loader, csrc, g_empty_scope(), reg);
                        match s_gen_nodes(tree.nodes, 0, loader, csrc, g_empty_scope(), reg) {
                            Err(_) => {},
                            Ok((cscope, reg1)) => {
                                let cid = reg1.len() as int;
                                let reg2 = reg1.push(cscope);
                                let scope2 = GScope {
                                    symbols: scope.symbols,
                                    submodules: scope.submodules.push((nm, cid)),
                                };
                                assert(reg_edges_ok(reg2)) by {
                                    assert forall|a: int, b: int|
                                        0 <= a < reg2.len() && 0 <= b < (
                                    #[trigger] reg2[a]).submodules.len() implies 0 <= (
                                    #[trigger] reg2[a].submodules[b]).1 < a by {
                                        if a < reg1.len() {
                                            assert(reg2[a] == reg1[a]);
                                        }
                                    }
                                }
                                assert(reg_no_alias(reg2)) by {
                                    assert forall|a: int| 0 <= a < reg2.len() implies scope_no_alias(
                                        #[trigger] reg2[a],
                                    ) by {
                                        if a < reg1.len() {
                                            assert(reg2[a] == reg1[a]);
                                        }
                                    }
                                }
                                assert(scope_edges_ok(scope2, reg2.len() as int));
                                lemma_gen_edges(nodes, i + 1, loader, src, scope2, reg2);
                            },
                        }
                    }
                }
            },
            _ => {
                lemma_gen_edges(nodes, i + 1, loader, src, scope, reg);
            },
        }
    }
}

/// A walk along submodule edges only reaches scopes that are reachable from
/// wherever the walk began reachable from.
proof fn lemma_walk_reach(
    gp: crate::ast::GPath,
    j: int,
    end: int,
    src: Seq<u8>,
    cur: int,
    reg: Seq<GScope>,
    root: int,
)
    requires
        reg_edges_ok(reg),
        exists|k: nat| reaches(reg, root, cur, k),
        0 <= cur < reg.len(),
    ensures
        (match s_walk_segments(gp, j, end, src, cur, reg) {
            Ok(c2) => 0 <= c2 < reg.len() && exists|k: nat| reaches(reg, root, c2, k),
            Err(_) => true,
        }),
    decreases end - j,
{
    if 0 <= j < end {
        match gp[j] {
            crate::ast::GPathNode::Singly { name, generics } => {
                if generics.len() == 0 && name.begin <= name.end <= src.len() {
                    let nm = src.subrange(name.begin as int, name.end as int);
                    lemma_sub_find_edge(reg[cur].submodules, nm);
                    match g_sub_find(reg[cur].submodules, nm) {
                        None => {},
                        Some(nx) => {
                            let e = choose|e: int|
                                0 <= e < reg[cur].submodules.len() && (
                                #[trigger] reg[cur].submodules[e]).1 == nx;
                            let k0 = choose|k: nat| reaches(reg, root, cur, k);
                            lemma_reaches_step(reg, root, cur, k0, e);
                            assert(reaches(reg, root, nx, (k0 + 1) as nat));
                            lemma_walk_reach(gp, j + 1, end, src, nx, reg, root);
                        },
                    }
                }
            },
            crate::ast::GPathNode::Multi(_) => {},
        }
    }
}

/// Inserting one alias of a reachable scope keeps every alias valid and
/// reachable; edges and length are untouched.
proof fn lemma_insert_alias_ok(reg: Seq<GScope>, sid: int, nm: Seq<u8>, target: int, root: int)
    requires
        aliases_ok(reg, root),
        reg_edges_ok(reg),
        0 <= target < reg.len(),
        exists|k: nat| reaches(reg, root, target, k),
    ensures
        (match s_insert_alias(reg, sid, nm, target) {
            Ok(reg1) => {
                &&& reg1.len() == reg.len()
                &&& (forall|i: int|
                    0 <= i < reg.len() ==> (#[trigger] reg1[i]).submodules == reg[i].submodules)
                &&& reg_edges_ok(reg1)
                &&& aliases_ok(reg1, root)
            },
            Err(_) => true,
        }),
{
    if 0 <= sid < reg.len() && !g_sym_has(reg[sid], nm) {
        let reg1 = (match s_insert_alias(reg, sid, nm, target) {
            Ok(g) => g,
            Err(_) => arbitrary(),
        });
        assert forall|i: int|
            0 <= i < reg.len() implies (#[trigger] reg1[i]).submodules == reg[i].submodules by {
            if i != sid {
                assert(reg1[i] == reg[i]);
            }
        }
        assert(reg_edges_ok(reg1)) by {
            assert forall|a: int, b: int|
                0 <= a < reg1.len() && 0 <= b < (#[trigger] reg1[a]).submodules.len() implies 0 <= (
            #[trigger] reg1[a].submodules[b]).1 < a by {
                assert(reg1[a].submodules == reg[a].submodules);
            }
        }
        assert(aliases_ok(reg1, root)) by {
            assert forall|i: int, j: int|
                0 <= i < reg1.len() && 0 <= j < (#[trigger] reg1[i]).symbols.len() && ((
            #[trigger] reg1[i].symbols[j]).1 is Alias) implies {
                let t = reg1[i].symbols[j].1->Alias_0;
                &&& 0 <= t < reg1.len()
                &&& exists|k: nat| reaches(reg1, root, t, k)
            } by {
                let t = reg1[i].symbols[j].1->Alias_0;
                if i == sid && j == reg[sid].symbols.len() {
                    assert(t == target);
                    let k0 = choose|k: nat| reaches(reg, root, target, k);
                    lemma_reaches_same_subs(reg, reg1, root, target, k0);
                } else {
                    if i == sid {
                        assert(reg1[i].symbols[j] == reg[i].symbols[j]);
                    } else {
                        assert(reg1[i] == reg[i]);
                    }
                    assert(reg[i].symbols[j].1->Alias_0 == t);
                    let k0 = choose|k: nat| reaches(reg, root, t, k);
                    lemma_reaches_same_subs(reg, reg1, root, t, k0);
                }
            }
        }
    }
}

/// Resolving a trailing group keeps every alias valid and reachable.
proof fn lemma_use_multi_ok(
    ps: Seq<crate::ast::GPath>,
    k: int,
    src: Seq<u8>,
    cur: int,
    sid: int,
    reg: Seq<GScope>,
    root: int,
)
    requires
        aliases_ok(reg, root),
        reg_edges_ok(reg),
        0 <= cur < reg.len(),
        exists|kk: nat| reaches(reg, root, cur, kk),
    ensures
        (match s_use_multi(ps, k, src, cur, sid, reg) {
            Ok(reg2) => {
                &&& reg2.len() == reg.len()
                &&& (forall|i: int|
                    0 <= i < reg.len() ==> (#[trigger] reg2[i]).submodules == reg[i].submodules)
                &&& reg_edges_ok(reg2)
                &&& aliases_ok(reg2, root)
            },
            Err(_) => true,
        }),
    decreases ps.len() - k,
{
    if 0 <= k < ps.len() {
        let sub = ps[k];
        if sub.len() > 0 {
            lemma_walk_reach(sub, 0, sub.len() - 1, src, cur, reg, root);
            match s_walk_segments(sub, 0, sub.len() - 1, src, cur, reg) {
                Err(_) => {},
                Ok(c2) => {
                    match sub[sub.len() - 1] {
                        crate::ast::GPathNode::Singly { name, generics } => {
                            if generics.len() == 0 && name.begin <= name.end <= src.len() {
                                let nm = src.subrange(name.begin as int, name.end as int);
                                lemma_insert_alias_ok(reg, sid, nm, c2, root);
                                match s_insert_alias(reg, sid, nm, c2) {
                                    Err(_) => {},
                                    Ok(reg1) => {
                                        let kk = choose|kk: nat| reaches(reg, root, cur, kk);
                                        lemma_reaches_same_subs(reg, reg1, root, cur, kk);
                                        lemma_use_multi_ok(ps, k + 1, src, cur, sid, reg1, root);
                                    },
                                }
                            }
                        },
                        crate::ast::GPathNode::Multi(_) => {},
                    }
                },
            }
        }
    }
}

/// Resolving one `using` path keeps every alias valid and reachable.
proof fn lemma_use_path_ok(
    gp: crate::ast::GPath,
    src: Seq<u8>,
    sid: int,
    reg: Seq<GScope>,
    root: int,
)
    requires
        aliases_ok(reg, root),
        reg_edges_ok(reg),
        0 <= sid < reg.len(),
        exists|kk: nat| reaches(reg, root, sid, kk),
    ensures
        (match s_use_path(gp, src, sid, reg) {
            Ok(reg2) => {
                &&& reg2.len() == reg.len()
                &&& (forall|i: int|
                    0 <= i < reg.len() ==> (#[trigger] reg2[i]).submodules == reg[i].submodules)
                &&& reg_edges_ok(reg2)
                &&& aliases_ok(reg2, root)
            },
            Err(_) => true,
        }),
{
    if gp.len() > 0 {
        lemma_walk_reach(gp, 0, gp.len() - 1, src, sid, reg, root);
        match s_walk_segments(gp, 0, gp.len() - 1, src, sid, reg) {
            Err(_) => {},
            Ok(cur) => {
                match gp[gp.len() - 1] {
                    crate::ast::GPathNode::Singly { name, generics } => {
                        if generics.len() == 0 && name.begin <= name.end <= src.len() {
                            let nm = src.subrange(name.begin as int, name.end as int);
                            lemma_insert_alias_ok(reg, sid, nm, cur, root);
                        }
                    },
                    crate::ast::GPathNode::Multi(ps) => {
                        lemma_use_multi_ok(ps, 0, src, cur, sid, reg, root);
                    },
                }
            },
        }
    }
}

/// Pass 2 keeps every alias valid and reachable from the root.
proof fn lemma_import_ok(
    nodes: Seq<GNode>,
    i: int,
    loader: Seq<Seq<u8>>,
    src: Seq<u8>,
    sid: int,
    reg: Seq<GScope>,
    root: int,
)
    requires
        aliases_ok(reg, root),
        reg_edges_ok(reg),
        exists|kk: nat| reaches(reg, root, sid, kk),
    ensures
        (match s_import_nodes(nodes, i, loader, src, sid, reg) {
            Ok(reg2) => {
                &&& reg2.len() == reg.len()
                &&& (forall|ii: int|
                    0 <= ii < reg.len() ==> (#[trigger] reg2[ii]).submodules == reg[ii].submodules)
                &&& reg_edges_ok(reg2)
                &&& aliases_ok(reg2, root)
            },
            Err(_) => true,
        }),
    decreases nodes, nodes.len() - i,
{
    if 0 <= i < nodes.len() && 0 <= sid < reg.len() {
        match nodes[i] {
            GNode::UsingStatement { using } => {
                lemma_use_path_ok(using, src, sid, reg, root);
                match s_use_path(using, src, sid, reg) {
                    Err(_) => {},
                    Ok(reg1) => {
                        if reg1.len() == reg.len() {
                            let kk = choose|kk: nat| reaches(reg, root, sid, kk);
                            lemma_reaches_same_subs(reg, reg1, root, sid, kk);
                            lemma_import_ok(nodes, i + 1, loader, src, sid, reg1, root);
                        }
                    },
                }
            },
            GNode::ModStatement { name, tree } => {
                if name.begin <= name.end <= src.len() {
                    let nm = src.subrange(name.begin as int, name.end as int);
                    lemma_sub_find_edge(reg[sid].submodules, nm);
                    match g_sub_find(reg[sid].submodules, nm) {
                        None => {},
                        Some(cid) => {
                            if (tree.id.0 as int) < loader.len() {
                                let csrc = loader[tree.id.0 as int];
                                let e = choose|e: int|
                                    0 <= e < reg[sid].submodules.len() && (
                                    #[trigger] reg[sid].submodules[e]).1 == cid;
                                let kk = choose|kk: nat| reaches(reg, root, sid, kk);
                                lemma_reaches_step(reg, root, sid, kk, e);
                                lemma_import_ok(tree.nodes, 0, loader, csrc, cid, reg, root);
                                match s_import_nodes(tree.nodes, 0, loader, csrc, cid, reg) {
                                    Err(_) => {},
                                    Ok(reg1) => {
                                        if reg1.len() == reg.len() {
                                            lemma_reaches_same_subs(reg, reg1, root, sid, kk);
                                            lemma_import_ok(
                                                nodes,
                                                i + 1,
                                                loader,
                                                src,
                                                sid,
                                                reg1,
                                                root,
                                            );
                                        }
                                    },
                                }
                            }
                        },
                    }
                }
            },
            _ => {
                lemma_import_ok(nodes, i + 1, loader, src, sid, reg, root);
            },
        }
    }
}

/// Alias reachability: after symbol-tree construction, every alias symbol
/// names a valid scope of the registry that submodule traversal reaches from
/// the compilation's root scope.
pub proof fn lemma_alias_reachability(gt: GTree, loader: Seq<Seq<u8>>)
    ensures
        (match s_generate(gt, loader) {
            Ok((reg, root)) => aliases_ok(reg, root),
            Err(_) => true,
        }),
{
    if (gt.id.0 as int) < loader.len() {
        let src = loader[gt.id.0 as int];
        assert(scope_edges_ok(g_empty_scope(), 0));
        assert(scope_no_alias(g_empty_scope()));
        assert(reg_edges_ok(Seq::<GScope>::empty()));
        assert(reg_no_alias(Seq::<GScope>::empty()));
        lemma_gen_edges(gt.nodes, 0, loader, src, g_empty_scope(), Seq::empty());
        match s_gen_nodes(gt.nodes, 0, loader, src, g_empty_scope(), Seq::empty()) {
            Err(_) => {},
            Ok((root_scope, reg)) => {
                let rootid = reg.len() as int;
                let reg1 = reg.push(root_scope);
                assert(reg_edges_ok(reg1)) by {
                    assert forall|a: int, b: int|
                        0 <= a < reg1.len() && 0 <= b < (#[trigger] reg1[a]).submodules.len() implies
                        0 <= (#[trigger] reg1[a].submodules[b]).1 < a by {
                        if a < reg.len() {
                            assert(reg1[a] == reg[a]);
                        }
                    }
                }
                assert(aliases_ok(reg1, rootid)) by {
                    assert forall|i: int, j: int|
                        0 <= i < reg1.len() && 0 <= j < (#[trigger] reg1[i]).symbols.len() implies !((
                    #[trigger] reg1[i].symbols[j]).1 is Alias) by {
                        if i < reg.len() {
                            assert(reg1[i] == reg[i]);
                            assert(scope_no_alias(reg[i]));
                        } else {
                            assert(reg1[i] == root_scope);
                        }
                    }
                }
                assert(reaches(reg1, rootid, rootid, 0nat));
                lemma_import_ok(gt.nodes, 0, loader, src, rootid, reg1, rootid);
            },
        }
    }
}

} // verus!
