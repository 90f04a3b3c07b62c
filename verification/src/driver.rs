use crate::ast::{ASTTree, GTree, tree_models};
use crate::gst::{GSymbolError, GlobalSymbolTree, SymbolError, s_generate, scopes_models, serr_models};
use crate::loader::{FileId, FileLoader, OpenFault, SourceTree, s_lookup};
use crate::parser::{
    FsSt, GParseError, ParseError, SSt, dirname, parse_nodes, perr_models, s_dirname, s_parse_nodes,
    unguarded_count,
};
use crate::span::clone_bytes;
use crate::tokenizer::{STokens, Tokenizer, s_tokens};
use crate::RecursiveGuard;
use vstd::prelude::*;

verus! {

/// Why a compilation stopped. `NeedFile` is not a failure of the input: the
/// caller must look the path up on the real file system, record the outcome
/// in the file picture, and run the compilation again.
#[derive(Debug)]
pub enum CompileError {
    NeedFile { path: Vec<u8> },
    Io { path: Vec<u8> },
    Parse(ParseError),
    Symbol(SymbolError),
}

/// The specification-level picture of a stopped compilation.
pub enum GCompileError {
    NeedFile { path: Seq<u8> },
    Io { path: Seq<u8> },
    Parse(GParseError),
    Symbol(GSymbolError),
}

pub open spec fn cerr_models(e: CompileError, g: GCompileError) -> bool {
    match g {
        GCompileError::NeedFile { path } => e matches CompileError::NeedFile { path: p } && p@
            == path,
        GCompileError::Io { path } => e matches CompileError::Io { path: p } && p@ == path,
        GCompileError::Parse(ge) => e matches CompileError::Parse(pe) && perr_models(pe, ge),
        GCompileError::Symbol(ge) => e matches CompileError::Symbol(se) && serr_models(se, ge),
    }
}

/// Everything one compilation produces: the syntactic tree, the module-scope
/// graph, and the loader that owns every opened file's bytes.
pub struct CompileOutput {
    pub tree: ASTTree,
    pub symbols: GlobalSymbolTree,
    pub loader: FileLoader,
}

/// One whole compilation over the in-memory file picture: open the root,
/// lex it, parse it (resolving module statements against the picture), and
/// build the module-scope graph.
pub open spec fn s_compile(root: Seq<u8>, files: Seq<(Seq<u8>, Option<Seq<u8>>)>) -> Result<
    (GTree, Seq<crate::gst::GScope>, int, Seq<Seq<u8>>),
    GCompileError,
> {
    match s_lookup(files, root) {
        None => Err(GCompileError::NeedFile { path: root }),
        Some(None) => Err(GCompileError::Io { path: root }),
        Some(Some(bytes)) => {
            match s_tokens(bytes, 0) {
                STokens::Fail(e) => Err(
                    GCompileError::Parse(GParseError::Lex { file: FileId(0), err: e }),
                ),
                STokens::Toks(ts) => {
                    let st0 = SSt { loader: seq![bytes], guard: Seq::empty() };
                    let d = (unguarded_count(files, Seq::empty()) + 1) as nat;
                    match s_parse_nodes(
                        ts,
                        0,
                        st0,
                        files,
                        FileId(0),
                        bytes,
                        s_dirname(root),
                        false,
                        d,
                    ) {
                        (Err(GParseError::NeedFile { path }), _) => Err(
                            GCompileError::NeedFile { path },
                        ),
                        (Err(e), _) => Err(GCompileError::Parse(e)),
                        (Ok((gnodes, _)), sst) => {
                            let gt = GTree { nodes: gnodes, id: FileId(0) };
                            match s_generate(gt, sst.loader) {
                                Err(e) => Err(GCompileError::Symbol(e)),
                                Ok((greg, grid)) => Ok((gt, greg, grid, sst.loader)),
                            }
                        },
                    }
                },
            }
        },
    }
}

/// Runs one whole compilation against the in-memory file picture.
pub fn compile(root: &Vec<u8>, files: &SourceTree) -> (r: Result<CompileOutput, CompileError>)
    ensures
        (match (r, s_compile(root@, files@)) {
            (Ok(out), Ok((gt, greg, grid, gloader))) => tree_models(out.tree, gt) && scopes_models(
                out.symbols.scopes@,
                greg,
            ) && out.symbols.root as int == grid && out.loader@ == gloader,
            (Err(a), Err(b)) => cerr_models(a, b),
            _ => false,
        }),
{
    let mut loader = FileLoader::new();
    match loader.open(root, files) {
        Err(OpenFault::Unknown) => Err(CompileError::NeedFile { path: clone_bytes(root) }),
        Err(OpenFault::Missing) => Err(CompileError::Io { path: clone_bytes(root) }),
        Ok(fid) => {
            let src = clone_bytes(loader.load(fid));
            let tz = Tokenizer::new(clone_bytes(&src));
            match tz.tree() {
                Err(e) => Err(CompileError::Parse(ParseError::Lex { file: fid, err: e })),
                Ok(tt) => {
                    let dir = dirname(root);
                    let guard = RecursiveGuard::new();
                    let ghost d = unguarded_count(files@, Seq::<Seq<u8>>::empty()) + 1;
                    let st = FsSt { loader, guard };
                    proof {
                        assert(st.loader@ =~= seq![src@]);
                    }
                    let (r1, st1) = parse_nodes(
                        &tt.stream,
                        0,
                        st,
                        files,
                        fid,
                        &src,
                        &dir,
                        false,
                        Ghost(d),
                    );
                    match r1 {
                        Err(ParseError::NeedFile { path }) => Err(CompileError::NeedFile { path }),
                        Err(e) => Err(CompileError::Parse(e)),
                        Ok((nodes, _)) => {
                            let tree = ASTTree::new(nodes, fid);
                            let ghost gt = (match s_parse_nodes(
                                tt.stream@,
                                0,
                                SSt { loader: seq![src@], guard: Seq::empty() },
                                files@,
                                fid,
                                src@,
                                dir@,
                                false,
                                d,
                            ) {
                                (Ok((gnodes, _)), _) => GTree { nodes: gnodes, id: fid },
                                _ => arbitrary(),
                            });
                            proof {
                                assert(tree_models(tree, gt));
                            }
                            match GlobalSymbolTree::generate(&tree, &st1.loader, Ghost(gt)) {
                                Err(e) => Err(CompileError::Symbol(e)),
                                Ok(t) => Ok(CompileOutput { tree, symbols: t, loader: st1.loader }),
                            }
                        },
                    }
                },
            }
        },
    }
}

/// Compilation is a pure function of the root path and the file picture:
/// two runs over identical file trees yield the same specification-level
/// tree, scope graph and file store.
pub proof fn lemma_compile_deterministic(
    root: Seq<u8>,
    files: Seq<(Seq<u8>, Option<Seq<u8>>)>,
    r1: Result<(GTree, Seq<crate::gst::GScope>, int, Seq<Seq<u8>>), GCompileError>,
    r2: Result<(GTree, Seq<crate::gst::GScope>, int, Seq<Seq<u8>>), GCompileError>,
)
    requires
        r1 == s_compile(root, files),
        r2 == s_compile(root, files),
    ensures
        r1 == r2,
{
}

} // verus!
