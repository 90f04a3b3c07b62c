use pipec::adynlist::{ADynList, ListNode};
use pipec::ast::Generics;
use pipec::driver::{compile, CompileError, CompileOutput};
use pipec::gst::{LanguageAttribute, SymbolError};
use pipec::semantic::Type;
use pipec::span::Span;
use pipec::arena::{Arena, Size};
use pipec::ast::{ASTNode, ASTTree, Expression, PathNode};
use pipec::loader::{FileLoader, SourceTree};
use pipec::parser::{ASTGenerator, ParseError};
use pipec::tokenizer::Tokenizer;
use pipec::RecursiveGuard;

/// Builds an in-memory file picture and parses `root` against it.
fn parse(
    root: &str,
    entries: &[(&str, Option<&str>)],
) -> (Result<ASTTree, ParseError>, FileLoader, Vec<u8>) {
    let mut files = SourceTree::new();
    for (path, content) in entries {
        files.record(
            path.as_bytes().to_vec(),
            content.map(|c| c.as_bytes().to_vec()),
        );
    }
    let rootpath = root.as_bytes().to_vec();
    let mut loader = FileLoader::new();
    let fid = loader.open(&rootpath, &files).expect("root file must be present");
    let src = loader.load(fid).clone();
    let tt = Tokenizer::new(src.clone()).tree().expect("root file must lex");
    let gen = ASTGenerator::new(fid, tt, rootpath, loader, RecursiveGuard::new());
    let (r, loader) = gen.tree(&files);
    (r, loader, src)
}

#[test]
fn empty_file_parses_to_empty_tree() {
    let (r, _, _) = parse("main.pipec", &[("main.pipec", Some(""))]);
    let tree = r.unwrap();
    assert_eq!(tree.stream.len(), 0);
}

#[test]
fn using_statement_parses() {
    let (r, _, src) = parse(
        "main.pipec",
        &[("main.pipec", Some("using std/graphics/color;"))],
    );
    let tree = r.unwrap();
    assert_eq!(tree.stream.len(), 1);
    match &tree.stream[0] {
        ASTNode::UsingStatement { using } => {
            assert_eq!(using.0.len(), 3);
            match &using.0[0] {
                PathNode::Singly { name, .. } => assert_eq!(name.parse(&src), b"std"),
                other => panic!("unexpected segment {:?}", other),
            }
            match &using.0[2] {
                PathNode::Singly { name, .. } => assert_eq!(name.parse(&src), b"color"),
                other => panic!("unexpected segment {:?}", other),
            }
        }
        other => panic!("unexpected node {:?}", other),
    }
}

#[test]
fn function_with_generics_and_return_type() {
    let (r, _, src) = parse(
        "main.pipec",
        &[(
            "main.pipec",
            Some("function add[T: Number](x: T, y: T) => T { }"),
        )],
    );
    let tree = r.unwrap();
    assert_eq!(tree.stream.len(), 1);
    match &tree.stream[0] {
        ASTNode::FunctionDeclaration {
            name,
            generics,
            params,
            out_type,
            ..
        } => {
            assert_eq!(name.parse(&src), b"add");
            assert_eq!(generics.0.len(), 1);
            assert_eq!(generics.0[0].name.parse(&src), b"T");
            assert_eq!(generics.0[0].traits.0.len(), 1);
            assert_eq!(params.0.len(), 2);
            assert_eq!(params.0[0].name.parse(&src), b"x");
            assert_eq!(params.0[1].name.parse(&src), b"y");
            assert!(out_type.is_some());
        }
        other => panic!("unexpected node {:?}", other),
    }
}

#[test]
fn expression_statements_parse_right_associative() {
    let (r, _, _) = parse(
        "main.pipec",
        &[("main.pipec", Some("function f() { 1 + 2 * 3; }"))],
    );
    let tree = r.unwrap();
    match &tree.stream[0] {
        ASTNode::FunctionDeclaration { block, .. } => {
            assert_eq!(block.0.len(), 1);
            match &block.0[0] {
                pipec::ast::FunctionBlockStatements::ExpressionStatement {
                    hidden,
                    expression,
                } => {
                    assert!(*hidden);
                    match expression {
                        Expression::BinaryOpExpression { optype, rhs, .. } => {
                            assert_eq!(*optype, pipec::ast::BinaryOpType::Add);
                            assert!(matches!(
                                **rhs,
                                Expression::BinaryOpExpression { .. }
                            ));
                        }
                        other => panic!("unexpected expression {:?}", other),
                    }
                }
                other => panic!("unexpected statement {:?}", other),
            }
        }
        other => panic!("unexpected node {:?}", other),
    }
}

#[test]
fn inline_module_shadows_filesystem() {
    let (r, _, src) = parse(
        "main.pipec",
        &[(
            "main.pipec",
            Some("module utils { function id(x: integer32) => integer32 { } }"),
        )],
    );
    let tree = r.unwrap();
    match &tree.stream[0] {
        ASTNode::ModStatement { name, tree: sub } => {
            assert_eq!(name.parse(&src), b"utils");
            assert_eq!(sub.stream.len(), 1);
            assert!(matches!(sub.stream[0], ASTNode::FunctionDeclaration { .. }));
        }
        other => panic!("unexpected node {:?}", other),
    }
}

#[test]
fn filesystem_module_is_resolved() {
    let (r, loader, src) = parse(
        "main.pipec",
        &[
            ("main.pipec", Some("module utils;")),
            ("./utils/mod.pipec", None),
            ("./utils.pipec", Some("viewport v() { }")),
        ],
    );
    let tree = r.unwrap();
    match &tree.stream[0] {
        ASTNode::ModStatement { name, tree: sub } => {
            assert_eq!(name.parse(&src), b"utils");
            assert_eq!(sub.stream.len(), 1);
            assert!(matches!(sub.stream[0], ASTNode::ViewportDeclaration { .. }));
            // the submodule tree points at the file the loader opened for it
            assert_eq!(loader.store[sub.id.0], b"viewport v() { }".to_vec());
        }
        other => panic!("unexpected node {:?}", other),
    }
}

#[test]
fn ambiguous_module_is_refused() {
    let (r, _, _) = parse(
        "main.pipec",
        &[
            ("main.pipec", Some("module utils;")),
            ("./utils/mod.pipec", Some("")),
            ("./utils.pipec", Some("")),
        ],
    );
    assert!(matches!(r, Err(ParseError::AmbiguousModule { .. })));
}

#[test]
fn missing_module_is_refused() {
    let (r, _, _) = parse(
        "main.pipec",
        &[
            ("main.pipec", Some("module utils;")),
            ("./utils/mod.pipec", None),
            ("./utils.pipec", None),
        ],
    );
    assert!(matches!(r, Err(ParseError::MissingModule { .. })));
}

#[test]
fn unknown_candidate_asks_for_the_file() {
    let (r, _, _) = parse("main.pipec", &[("main.pipec", Some("module utils;"))]);
    match r {
        Err(ParseError::NeedFile { path }) => {
            assert_eq!(path, b"./utils/mod.pipec".to_vec());
        }
        other => panic!("unexpected outcome {:?}", other),
    }
}

#[test]
fn module_cycle_is_refused() {
    // utils.pipec declares `module utils;` again: its candidates are already
    // on the recursion frame's guard, so the parse stops with a cycle error.
    let (r, _, _) = parse(
        "main.pipec",
        &[
            ("main.pipec", Some("module utils;")),
            ("./utils/mod.pipec", None),
            ("./utils.pipec", Some("module utils;")),
        ],
    );
    assert!(matches!(r, Err(ParseError::ModuleCycle { .. })));
}

#[test]
fn reparse_yields_equal_tree() {
    let entries: &[(&str, Option<&str>)] = &[
        ("main.pipec", Some("module utils; using utils;")),
        ("./utils/mod.pipec", None),
        ("./utils.pipec", Some("function id(x: integer32) => integer32 { }")),
    ];
    let (r1, _, src1) = parse("main.pipec", entries);
    let (r2, _, src2) = parse("main.pipec", entries);
    let t1 = r1.unwrap();
    let t2 = r2.unwrap();
    assert_eq!(src1, src2);
    assert_eq!(t1.stream.len(), t2.stream.len());
    for (a, b) in t1.stream.iter().zip(t2.stream.iter()) {
        assert_eq!(format!("{:?}", a), format!("{:?}", b));
    }
}

#[test]
fn type_trait_and_implement_parse() {
    let (r, _, src) = parse(
        "main.pipec",
        &[(
            "main.pipec",
            Some("type pair = { x: integer32, y: integer32 };\ntrait Shade { }\nimplement Shade for pair { }"),
        )],
    );
    let tree = r.unwrap();
    assert_eq!(tree.stream.len(), 3);
    match &tree.stream[0] {
        ASTNode::TypeDeclaration { name, subtype, .. } => {
            assert_eq!(name.parse(&src), b"pair");
            assert!(matches!(subtype, pipec::ast::SubType::Mapping(fields) if fields.len() == 2));
        }
        other => panic!("unexpected node {:?}", other),
    }
    assert!(matches!(tree.stream[1], ASTNode::TraitDeclaration { .. }));
    assert!(matches!(tree.stream[2], ASTNode::ImplementBlock { .. }));
}

#[test]
fn export_builtins_and_parse_errors() {
    let (r, _, _) = parse(
        "main.pipec",
        &[(
            "main.pipec",
            Some("viewport v() { export #col = x; export #pos = y; }"),
        )],
    );
    let tree = r.unwrap();
    match &tree.stream[0] {
        ASTNode::ViewportDeclaration { block, .. } => {
            assert!(matches!(
                block.0[0],
                pipec::ast::FunctionBlockStatements::ExportDeclaration {
                    exporting: pipec::ast::Exported::ColorBuiltin,
                    ..
                }
            ));
            assert!(matches!(
                block.0[1],
                pipec::ast::FunctionBlockStatements::ExportDeclaration {
                    exporting: pipec::ast::Exported::PositionBuiltin,
                    ..
                }
            ));
        }
        other => panic!("unexpected node {:?}", other),
    }
    // any other #name is a parse error
    let (r, _, _) = parse(
        "main.pipec",
        &[("main.pipec", Some("viewport v() { export #depth = z; }"))],
    );
    assert!(matches!(r, Err(ParseError::UnexpectedToken { .. })));
}

#[test]
fn arena_handles_stay_valid() {
    let mut arena: Arena<u32> = Arena::new(Size::Kibs(1));
    assert_eq!(arena.padding(), 0);
    let a = arena.allocate(7).unwrap();
    let b = arena.allocate(9).unwrap();
    assert_eq!(*arena.take(a), 7);
    assert_eq!(*arena.take(b), 9);
    assert_eq!(arena.used(), 2);
    assert_eq!(arena.capacity(), 1024);
}

#[test]
fn adynlist_walks_in_order() {
    let mut arena: Arena<ListNode<u32>> = Arena::new(Size::Kibs(1));
    let mut list = ADynList::new(&mut arena).unwrap();
    list.push(1, &mut arena).unwrap();
    list.push(2, &mut arena).unwrap();
    list.push(3, &mut arena).unwrap();
    let mut it = list.iter(&arena);
    assert_eq!(it.next(), Some(1));
    assert_eq!(it.next(), Some(2));
    assert_eq!(it.next(), Some(3));
    assert_eq!(it.next(), None);
    assert!(list.len_eq(3, &mut arena));
    assert!(list.len_gt(2, &mut arena));
    assert!(list.len_lt(3, &mut arena));
}

#[test]
fn builtin_type_classification() {
    // the source text the spans point into
    let src = b"integer32 floatport nothing shade i32".to_vec();
    let single = |b: usize, e: usize| {
        pipec::ast::Path(vec![PathNode::Singly {
            name: Span::new(b, e),
            generics: Generics(vec![]),
        }])
    };
    assert!(matches!(
        Type::from_path(&Some(single(0, 9)), &src),
        Type::Builtin(LanguageAttribute::Integer32)
    ));
    assert!(matches!(
        Type::from_path(&Some(single(10, 19)), &src),
        Type::Builtin(LanguageAttribute::FloatPort)
    ));
    assert!(matches!(
        Type::from_path(&Some(single(20, 27)), &src),
        Type::Builtin(LanguageAttribute::Nothing)
    ));
    // a name outside the closed table links the qualified name
    match Type::from_path(&Some(single(28, 33)), &src) {
        Type::Link(q) => assert_eq!(q, vec![b"shade".to_vec()]),
        other => panic!("unexpected classification {:?}", other),
    }
    // the short spellings are not in the table
    assert!(matches!(Type::from_path(&Some(single(34, 37)), &src), Type::Link(_)));
    // a missing path is Nothing
    assert!(matches!(
        Type::from_path(&None, &src),
        Type::Builtin(LanguageAttribute::Nothing)
    ));
}

#[test]
fn parameter_types_classify_elementwise() {
    let (r, _, src) = parse(
        "main.pipec",
        &[("main.pipec", Some("function f(a: integer32, b: shade) { }"))],
    );
    let tree = r.unwrap();
    match tree.stream.into_iter().next().unwrap() {
        ASTNode::FunctionDeclaration { params, .. } => {
            let tys = Type::from_path_params(&params, &src.to_vec());
            assert_eq!(tys.len(), 2);
            assert!(matches!(
                tys[0],
                Type::Builtin(LanguageAttribute::Integer32)
            ));
            assert!(matches!(tys[1], Type::Link(_)));
        }
        other => panic!("unexpected node {:?}", other),
    }
}

#[test]
fn scope_registry_starts_with_a_root() {
    let t = pipec::gst::GlobalSymbolTree::new();
    assert_eq!(t.scopes.len(), 1);
    assert_eq!(t.root, 0);
    assert!(t.scopes[0].symbols.is_empty());
    assert!(t.scopes[0].submodules.is_empty());
}


/// Builds an in-memory file picture and runs a whole compilation.
fn run(root: &str, entries: &[(&str, Option<&str>)]) -> Result<CompileOutput, CompileError> {
    let mut files = SourceTree::new();
    for (path, content) in entries {
        files.record(
            path.as_bytes().to_vec(),
            content.map(|c| c.as_bytes().to_vec()),
        );
    }
    compile(&root.as_bytes().to_vec(), &files)
}

#[test]
fn compile_builds_scopes_and_aliases() {
    let out = run(
        "main.pipec",
        &[(
            "main.pipec",
            Some("module gfx { function draw(x: integer32) => nothing { } }
using gfx/draw;"),
        )],
    )
    .unwrap();
    let t = &out.symbols;
    // two scopes: the gfx child (built first) and the root (appended last)
    assert_eq!(t.scopes.len(), 2);
    assert_eq!(t.root, 1);
    let root = &t.scopes[t.root];
    assert_eq!(root.submodules.len(), 1);
    assert_eq!(root.submodules[0].0, b"gfx".to_vec());
    let gfx_id = root.submodules[0].1;
    // the using statement aliased the last segment's name to the scope the
    // leading segments reach
    assert_eq!(root.symbols.len(), 1);
    assert_eq!(root.symbols[0].0, b"draw".to_vec());
    match &root.symbols[0].1 {
        pipec::gst::Symbol::Alias(t2) => assert_eq!(*t2, gfx_id),
        other => panic!("unexpected symbol {:?}", other),
    }
    // the child scope classified its function declaration
    let gfx = &t.scopes[gfx_id];
    assert_eq!(gfx.symbols.len(), 1);
    assert_eq!(gfx.symbols[0].0, b"draw".to_vec());
    match &gfx.symbols[0].1 {
        pipec::gst::Symbol::Function { params, return_type } => {
            assert_eq!(params.len(), 1);
            assert_eq!(params[0].0, b"x".to_vec());
            assert!(matches!(
                params[0].1,
                Type::Builtin(LanguageAttribute::Integer32)
            ));
            assert!(matches!(
                return_type,
                Type::Builtin(LanguageAttribute::Nothing)
            ));
        }
        other => panic!("unexpected symbol {:?}", other),
    }
}

#[test]
fn unresolved_using_is_a_symbol_error() {
    let r = run(
        "main.pipec",
        &[("main.pipec", Some("using std/graphics/color;"))],
    );
    match r {
        Err(CompileError::Symbol(SymbolError::UnresolvedUsing { name })) => {
            assert_eq!(name, b"std".to_vec());
        }
        other => panic!("unexpected outcome {:?}", other.err()),
    }
}

#[test]
fn duplicate_symbol_is_refused() {
    let r = run(
        "main.pipec",
        &[("main.pipec", Some("function f() { }
function f() { }"))],
    );
    match r {
        Err(CompileError::Symbol(SymbolError::DuplicateSymbol { name })) => {
            assert_eq!(name, b"f".to_vec());
        }
        other => panic!("unexpected outcome {:?}", other.err()),
    }
}

#[test]
fn module_scopes_are_deterministic() {
    let entries: &[(&str, Option<&str>)] = &[
        ("main.pipec", Some("module utils;
using utils;")),
        ("./utils/mod.pipec", None),
        ("./utils.pipec", Some("function id(x: integer32) => integer32 { }")),
    ];
    let a = run("main.pipec", entries).unwrap();
    let b = run("main.pipec", entries).unwrap();
    assert_eq!(a.symbols.root, b.symbols.root);
    assert_eq!(a.symbols.scopes.len(), b.symbols.scopes.len());
    for (sa, sb) in a.symbols.scopes.iter().zip(b.symbols.scopes.iter()) {
        assert_eq!(sa.symbols.len(), sb.symbols.len());
        for (xa, xb) in sa.symbols.iter().zip(sb.symbols.iter()) {
            assert_eq!(xa.0, xb.0);
            assert_eq!(format!("{:?}", xa.1), format!("{:?}", xb.1));
        }
        assert_eq!(sa.submodules.len(), sb.submodules.len());
        for (xa, xb) in sa.submodules.iter().zip(sb.submodules.iter()) {
            assert_eq!(xa.0, xb.0);
            assert_eq!(xa.1, xb.1);
        }
    }
}

#[test]
fn compile_asks_for_an_unknown_root() {
    let files = SourceTree::new();
    match compile(&b"main.pipec".to_vec(), &files) {
        Err(CompileError::NeedFile { path }) => assert_eq!(path, b"main.pipec".to_vec()),
        other => panic!("unexpected outcome {:?}", other.err()),
    }
}

#[test]
fn arena_allocations_read_back() {
    let mut structs: Arena<RandomStruct> = Arena::new(Size::Kibs(2));
    let mut numbers: Arena<i32> = Arena::new(Size::Kibs(2));
    let mut fats: Arena<BigFat> = Arena::new(Size::Kibs(2));
    let mut bytes: Arena<u8> = Arena::new(Size::Kibs(2));
    let mut lists: Arena<[i32; 4]> = Arena::new(Size::Kibs(2));
    let alloced_struct = structs.allocate(RandomStruct(100, 10)).unwrap();
    let another2 = numbers.allocate(31321).unwrap();
    let bigfat = fats
        .allocate(BigFat(32, 23, 254, 64, 32, 'a', 'b', 'c', 'd'))
        .unwrap();
    let smol = bytes.allocate(2u8).unwrap();
    let list = lists.allocate([32, 32, 321, 5]).unwrap();
    assert_eq!(structs.take(alloced_struct), &RandomStruct(100, 10));
    assert_eq!(numbers.take(another2), &31321);
    assert_eq!(fats.take(bigfat), &BigFat(32, 23, 254, 64, 32, 'a', 'b', 'c', 'd'));
    assert_eq!(bytes.take(smol), &2u8);
    assert_eq!(lists.take(list), &[32, 32, 321, 5]);
}

#[derive(Debug, PartialEq)]
struct RandomStruct(usize, u8);

#[derive(Debug, PartialEq)]
struct BigFat(usize, u8, usize, u16, u32, char, char, char, char);
