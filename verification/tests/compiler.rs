//! End-to-end behavior of the declaration parser and code generator, on
//! concrete token streams.

use hot_module::ast::{DeclSource, FnSig, OutItem, Param, Vis};
use hot_module::gen::{assemble, expand, gen_scaffold};
use hot_module::parse::{lower, parse_module, ImportEntry};
use hot_module::token::{Delim, Span, Tok};

fn sp(n: usize) -> Span {
    Span { lo: n, hi: n + 1 }
}

fn id(s: &str, n: usize) -> Tok {
    Tok::Ident(s.to_string(), sp(n))
}

fn pt(c: char, n: usize) -> Tok {
    Tok::Punct(c, sp(n))
}

fn grp(d: Delim, ts: Vec<Tok>, n: usize) -> Tok {
    Tok::Group(d, ts, sp(n))
}

fn lit(s: &str, n: usize) -> Tok {
    Tok::LitStr(s.to_string(), sp(n))
}

fn attr(name: &str, n: usize) -> Vec<Tok> {
    vec![pt('#', n), grp(Delim::Bracket, vec![id(name, n + 1)], n + 2)]
}

fn module(body: Vec<Tok>) -> Vec<Tok> {
    vec![id("mod", 0), id("m", 1), grp(Delim::Brace, body, 2)]
}

fn source() -> DeclSource {
    DeclSource { lib_name: "mylib".to_string(), lib_dir: "target/debug".to_string() }
}

fn sig(name: &str, params: Vec<(&str, Tok)>, ret: Option<Tok>, n: usize) -> FnSig {
    FnSig {
        vis: Vis::Inherited,
        name: name.to_string(),
        params: params
            .into_iter()
            .map(|(p, t)| Param { name: p.to_string(), ty: vec![t] })
            .collect(),
        ret: ret.map(|t| vec![t]),
        span: sp(n),
    }
}

/// A file-import directive over a source declaring `fn a(x: i32) -> i32`
/// and `fn b() -> bool` yields exactly those two proxies, in that order,
/// plus scaffolding.
#[test]
fn file_import_yields_proxies_in_extraction_order() {
    let body = vec![
        id("hot_functions_from_file", 10),
        pt('!', 11),
        grp(Delim::Paren, vec![lit("../lib/src/lib.rs", 12)], 13),
        pt(';', 14),
    ];
    let imports = vec![ImportEntry {
        path: "../lib/src/lib.rs".to_string(),
        sigs: Some(vec![
            sig("a", vec![("x", id("i32", 90))], Some(id("i32", 91)), 92),
            sig("b", vec![], Some(id("bool", 93)), 94),
        ]),
    }];
    let (r, warns) = expand(&module(body), &imports, source());
    assert!(warns.is_empty());
    let out = r.expect("expansion should succeed");
    assert_eq!(out.ident, "m");
    assert_eq!(out.vis, Vis::Inherited);
    assert_eq!(out.items.len(), 2);
    match &out.items[0] {
        OutItem::Proxy(p) => {
            assert_eq!(p.sig.name, "a");
            assert_eq!(p.symbol, "a");
            assert_eq!(p.sig.params.len(), 1);
            assert_eq!(p.sig.params[0].name, "x");
            assert_eq!(p.sig.params[0].ty, vec![id("i32", 90)]);
            assert_eq!(p.sig.ret, Some(vec![id("i32", 91)]));
            assert_eq!(p.arg_names, vec!["x".to_string()]);
        }
        other => panic!("expected a proxy, got {:?}", other),
    }
    match &out.items[1] {
        OutItem::Proxy(p) => {
            assert_eq!(p.sig.name, "b");
            assert_eq!(p.sig.params.len(), 0);
            assert_eq!(p.sig.ret, Some(vec![id("bool", 93)]));
        }
        other => panic!("expected a proxy, got {:?}", other),
    }
    assert_eq!(out.scaffold.source, source());
    assert_eq!(out.scaffold.handle_fn, "lib_loader_handle");
}

/// An inline-tagged function yields a proxy with the identical signature
/// whose original body is discarded entirely.
#[test]
fn inline_tagged_function_discards_body() {
    let mut body = attr("hot_function", 10);
    body.extend(vec![
        id("pub", 13),
        id("fn", 14),
        id("do_stuff", 15),
        grp(
            Delim::Paren,
            vec![id("arg", 16), pt(':', 17), pt('&', 18), id("str", 19)],
            20,
        ),
        pt('-', 21),
        pt('>', 22),
        id("u32", 23),
        grp(Delim::Brace, vec![id("original_body_marker", 24)], 25),
    ]);
    let (r, warns) = parse_module(&module(body), &vec![]);
    assert!(warns.is_empty());
    let m = r.expect("parse should succeed");
    assert_eq!(m.items.len(), 1);
    match &m.items[0] {
        OutItem::Proxy(p) => {
            assert_eq!(p.sig.vis, Vis::Public);
            assert_eq!(p.sig.name, "do_stuff");
            assert_eq!(p.sig.params.len(), 1);
            assert_eq!(p.sig.params[0].name, "arg");
            assert_eq!(p.sig.params[0].ty, vec![pt('&', 18), id("str", 19)]);
            assert_eq!(p.sig.ret, Some(vec![id("u32", 23)]));
            assert_eq!(p.symbol, "do_stuff");
            assert_eq!(p.arg_names, vec!["arg".to_string()]);
            // The proxy holds no trace of the original body.
            let rendered = format!("{:?}", p);
            assert!(!rendered.contains("original_body_marker"));
        }
        other => panic!("expected a proxy, got {:?}", other),
    }
}

/// A block-tagged group with one non-signature item among valid
/// signatures yields proxies for all valid signatures, skips the invalid
/// one, and records exactly one warning.
#[test]
fn block_group_skips_invalid_entry_with_one_warning() {
    let mut body = attr("hot_functions", 10);
    body.extend(vec![
        id("extern", 13),
        lit("Rust", 14),
        grp(
            Delim::Brace,
            vec![
                id("pub", 20),
                id("fn", 21),
                id("do_stuff", 22),
                grp(Delim::Paren, vec![id("arg", 23), pt(':', 24), id("i32", 25)], 26),
                pt('-', 27),
                pt('>', 28),
                id("u32", 29),
                pt(';', 30),
                // Not a signature: a static item.
                id("static", 31),
                id("X", 32),
                pt(':', 33),
                id("u8", 34),
                pt(';', 35),
                id("fn", 36),
                id("other", 37),
                grp(Delim::Paren, vec![], 38),
                pt(';', 39),
            ],
            40,
        ),
    ]);
    let (r, warns) = parse_module(&module(body), &vec![]);
    let m = r.expect("parse should succeed");
    assert_eq!(warns.len(), 1);
    assert_eq!(warns[0].span, Span { lo: 31, hi: 36 });
    assert_eq!(m.items.len(), 2);
    match (&m.items[0], &m.items[1]) {
        (OutItem::Proxy(p0), OutItem::Proxy(p1)) => {
            assert_eq!(p0.sig.name, "do_stuff");
            assert_eq!(p0.sig.vis, Vis::Public);
            assert_eq!(p1.sig.name, "other");
            assert_eq!(p1.sig.ret, None);
        }
        other => panic!("expected two proxies, got {:?}", other),
    }
}

/// An item matching none of the three forms passes through with zero
/// structural modification, attributes included.
#[test]
fn plain_items_pass_through_untouched() {
    let mut item1 = attr("derive", 10);
    item1.extend(vec![
        id("struct", 13),
        id("Foo", 14),
        grp(Delim::Brace, vec![id("x", 15), pt(':', 16), id("u8", 17)], 18),
    ]);
    let item2 = vec![
        id("use", 20),
        id("std", 21),
        pt(':', 22),
        pt(':', 23),
        id("mem", 24),
        pt(';', 25),
    ];
    let mut body = item1.clone();
    body.extend(item2.clone());
    let (r, warns) = parse_module(&module(body), &vec![]);
    assert!(warns.is_empty());
    let m = r.expect("parse should succeed");
    assert_eq!(m.items.len(), 2);
    assert_eq!(m.items[0], OutItem::Plain(item1));
    assert_eq!(m.items[1], OutItem::Plain(item2));
}

/// A module that never received its configuration fails assembly fatally.
#[test]
fn assembly_without_configuration_is_fatal() {
    let (r, _) = parse_module(&module(vec![]), &vec![]);
    let m = r.expect("parse should succeed");
    assert_eq!(m.source, None);
    let a = assemble(m);
    assert_eq!(
        a.expect_err("assembly must refuse a missing configuration"),
        hot_module::ast::AssembleError::MissingDeclarationSource
    );
}

/// Re-running the compiler on the same input yields identical output,
/// with expansions inlined at the point of occurrence: plain, proxies,
/// plain, in encounter order.
#[test]
fn output_order_is_stable_and_inlined() {
    let plain1 = vec![id("type", 10), id("A", 11), pt('=', 12), id("u8", 13), pt(';', 14)];
    let import = vec![
        id("hot_functions_from_file", 20),
        pt('!', 21),
        grp(Delim::Paren, vec![lit("f.rs", 22)], 23),
        pt(';', 24),
    ];
    let plain2 = vec![id("const", 30), id("N", 31), pt(':', 32), id("u8", 33), pt('=', 34),
        Tok::Lit("3".to_string(), sp(35)), pt(';', 36)];
    let mut body = plain1.clone();
    body.extend(import.clone());
    body.extend(plain2.clone());
    let imports = vec![ImportEntry {
        path: "f.rs".to_string(),
        sigs: Some(vec![sig("a", vec![], None, 90)]),
    }];
    let toks = module(body);
    let (r1, w1) = parse_module(&toks, &imports);
    let (r2, w2) = parse_module(&toks, &imports);
    let m1 = r1.expect("parse should succeed");
    let m2 = r2.expect("parse should succeed");
    assert_eq!(m1, m2);
    assert_eq!(w1, w2);
    assert_eq!(m1.items.len(), 3);
    assert_eq!(m1.items[0], OutItem::Plain(plain1));
    match &m1.items[1] {
        OutItem::Proxy(p) => assert_eq!(p.sig.name, "a"),
        other => panic!("expected a proxy, got {:?}", other),
    }
    assert_eq!(m1.items[2], OutItem::Plain(plain2));
}

/// Lowering preserves the externally visible signature and forwards the
/// arguments in declaration order under the verbatim symbol name.
#[test]
fn lowering_preserves_signature() {
    let s = FnSig {
        vis: Vis::Public,
        name: "work".to_string(),
        params: vec![
            Param { name: "a".to_string(), ty: vec![id("u8", 1)] },
            Param { name: "b".to_string(), ty: vec![id("u16", 2)] },
        ],
        ret: Some(vec![id("u32", 3)]),
        span: sp(4),
    };
    let p = lower(s.clone());
    assert_eq!(p.sig, s);
    assert_eq!(p.symbol, "work");
    assert_eq!(p.arg_names, vec!["a".to_string(), "b".to_string()]);
}

/// The marker match is exact: near-miss names stay plain items.
#[test]
fn near_miss_markers_are_plain() {
    let mut item1 = attr("hot_function_extra", 10);
    item1.extend(vec![
        id("fn", 13),
        id("f", 14),
        grp(Delim::Paren, vec![], 15),
        grp(Delim::Brace, vec![], 16),
    ]);
    let item2 = vec![
        id("hot_functions_from_files", 20),
        pt('!', 21),
        grp(Delim::Paren, vec![lit("x.rs", 22)], 23),
        pt(';', 24),
    ];
    let mut body = item1.clone();
    body.extend(item2.clone());
    let (r, warns) = parse_module(&module(body), &vec![]);
    assert!(warns.is_empty());
    let m = r.expect("parse should succeed");
    assert_eq!(m.items, vec![OutItem::Plain(item1), OutItem::Plain(item2)]);
}

/// A restricted visibility on the module is kept, with its restriction.
#[test]
fn module_visibility_is_kept() {
    let toks = vec![
        id("pub", 0),
        grp(Delim::Paren, vec![id("crate", 1)], 2),
        id("mod", 3),
        id("hot", 4),
        grp(Delim::Brace, vec![], 5),
    ];
    let (r, _) = parse_module(&toks, &vec![]);
    let m = r.expect("parse should succeed");
    assert_eq!(m.ident, "hot");
    assert_eq!(m.vis, Vis::Restricted(vec![id("crate", 1)]));
}

/// Scaffolding generation validates its configuration and produces the
/// fixed entry points.
#[test]
fn scaffolding_generation() {
    let ok = gen_scaffold(source()).expect("a well-formed configuration must succeed");
    assert_eq!(ok.handle_fn, "lib_loader_handle");
    assert_eq!(ok.reload_fn, "force_library_reload");
    assert_eq!(ok.updated_fn, "library_was_updated");
    assert_eq!(ok.source, source());

    let bad_name = DeclSource { lib_name: "1abc".to_string(), lib_dir: "d".to_string() };
    assert_eq!(
        gen_scaffold(bad_name).expect_err("a non-identifier name must be refused"),
        hot_module::ast::ScaffoldError::BadLibName
    );
    let empty_name = DeclSource { lib_name: String::new(), lib_dir: "d".to_string() };
    assert_eq!(
        gen_scaffold(empty_name).expect_err("an empty name must be refused"),
        hot_module::ast::ScaffoldError::BadLibName
    );
    let bad_dir = DeclSource { lib_name: "ok_name".to_string(), lib_dir: String::new() };
    assert_eq!(
        gen_scaffold(bad_dir).expect_err("an empty directory must be refused"),
        hot_module::ast::ScaffoldError::BadLibDir
    );
}

/// A brace-delimited file-import directive needs no trailing semicolon.
#[test]
fn brace_form_import_directive() {
    let body = vec![
        id("hot_functions_from_file", 10),
        pt('!', 11),
        grp(Delim::Brace, vec![lit("g.rs", 12)], 13),
    ];
    let imports = vec![ImportEntry {
        path: "g.rs".to_string(),
        sigs: Some(vec![sig("c", vec![], None, 90)]),
    }];
    let (r, _) = parse_module(&module(body), &imports);
    let m = r.expect("parse should succeed");
    assert_eq!(m.items.len(), 1);
    match &m.items[0] {
        OutItem::Proxy(p) => assert_eq!(p.sig.name, "c"),
        other => panic!("expected a proxy, got {:?}", other),
    }
}

/// The marker is found among several attributes, also when it carries
/// arguments; the proxy drops every attribute.
#[test]
fn marker_found_among_other_attributes() {
    let mut body = attr("allow", 5);
    body.extend(vec![
        pt('#', 8),
        grp(
            Delim::Bracket,
            vec![id("hot_function", 9), grp(Delim::Paren, vec![id("x", 10)], 11)],
            12,
        ),
    ]);
    body.extend(vec![
        id("fn", 13),
        id("f", 14),
        grp(Delim::Paren, vec![], 15),
        grp(Delim::Brace, vec![], 16),
    ]);
    let (r, _) = parse_module(&module(body), &vec![]);
    let m = r.expect("parse should succeed");
    assert_eq!(m.items.len(), 1);
    match &m.items[0] {
        OutItem::Proxy(p) => {
            assert_eq!(p.sig.name, "f");
            assert_eq!(p.sig.vis, Vis::Inherited);
        }
        other => panic!("expected a proxy, got {:?}", other),
    }
}

/// A parameter type holding a comma inside angle brackets is kept whole.
#[test]
fn generic_parameter_type_with_comma() {
    let mut body = attr("hot_function", 10);
    let ty = vec![
        id("Map", 20),
        pt('<', 21),
        id("u8", 22),
        pt(',', 23),
        id("u16", 24),
        pt('>', 25),
    ];
    let mut inner = vec![id("m", 18), pt(':', 19)];
    inner.extend(ty.clone());
    inner.extend(vec![pt(',', 26), id("n", 27), pt(':', 28), id("u32", 29)]);
    body.extend(vec![
        id("fn", 13),
        id("g", 14),
        grp(Delim::Paren, inner, 30),
        grp(Delim::Brace, vec![], 31),
    ]);
    let (r, _) = parse_module(&module(body), &vec![]);
    let m = r.expect("parse should succeed");
    match &m.items[0] {
        OutItem::Proxy(p) => {
            assert_eq!(p.sig.params.len(), 2);
            assert_eq!(p.sig.params[0].name, "m");
            assert_eq!(p.sig.params[0].ty, ty);
            assert_eq!(p.sig.params[1].name, "n");
            assert_eq!(p.arg_names, vec!["m".to_string(), "n".to_string()]);
        }
        other => panic!("expected a proxy, got {:?}", other),
    }
}

/// Duplicate names are not deduplicated: each declaration yields its own
/// proxy, in encounter order.
#[test]
fn duplicate_names_are_kept() {
    let mut body = attr("hot_function", 10);
    body.extend(vec![
        id("fn", 13),
        id("same", 14),
        grp(Delim::Paren, vec![], 15),
        grp(Delim::Brace, vec![], 16),
    ]);
    body.extend(attr("hot_function", 17));
    body.extend(vec![
        id("fn", 20),
        id("same", 21),
        grp(Delim::Paren, vec![], 22),
        pt('-', 23),
        pt('>', 24),
        id("u8", 25),
        grp(Delim::Brace, vec![], 26),
    ]);
    let (r, _) = parse_module(&module(body), &vec![]);
    let m = r.expect("parse should succeed");
    assert_eq!(m.items.len(), 2);
    match (&m.items[0], &m.items[1]) {
        (OutItem::Proxy(p0), OutItem::Proxy(p1)) => {
            assert_eq!(p0.sig.name, "same");
            assert_eq!(p0.sig.ret, None);
            assert_eq!(p1.sig.name, "same");
            assert_eq!(p1.sig.ret, Some(vec![id("u8", 25)]));
        }
        other => panic!("expected two proxies, got {:?}", other),
    }
}
