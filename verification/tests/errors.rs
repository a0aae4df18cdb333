//! The fatal failure modes of the parser, each anchored at the offending
//! tokens.

use hot_module::ast::{ParseErrorKind, Vis};
use hot_module::gen::ExpandError;
use hot_module::parse::{parse_module, ImportEntry};
use hot_module::token::{Delim, Span, Tok};

fn sp(n: usize) -> Span {
    Span { lo: n, hi: n + 1 }
}

fn id(s: &str, n: usize) -> Tok {
    Tok::Ident(s.to_string(), sp(n))
}

fn pt(c: char, n: usize) -> Tok {
    Tok::Punct(c, sp(n))
}

fn grp(d: Delim, ts: Vec<Tok>, n: usize) -> Tok {
    Tok::Group(d, ts, sp(n))
}

fn lit(s: &str, n: usize) -> Tok {
    Tok::LitStr(s.to_string(), sp(n))
}

fn module(body: Vec<Tok>) -> Vec<Tok> {
    vec![id("mod", 0), id("m", 1), grp(Delim::Brace, body, 2)]
}

#[test]
fn missing_module_keyword_is_fatal() {
    let (r, warns) = parse_module(&vec![id("foo", 0)], &vec![]);
    let e = r.expect_err("a stream without the module keyword must fail");
    assert_eq!(e.kind, ParseErrorKind::ExpectedMod);
    assert_eq!(e.span, sp(0));
    assert!(warns.is_empty());
}

#[test]
fn missing_module_name_is_fatal() {
    let (r, _) = parse_module(&vec![id("mod", 0), pt(';', 1)], &vec![]);
    let e = r.expect_err("a module without a name must fail");
    assert_eq!(e.kind, ParseErrorKind::ExpectedIdent);
    assert_eq!(e.span, sp(1));
}

#[test]
fn missing_module_body_is_fatal() {
    let (r, _) = parse_module(&vec![id("mod", 0), id("m", 1)], &vec![]);
    let e = r.expect_err("a module without a body must fail");
    assert_eq!(e.kind, ParseErrorKind::ExpectedBody);
    // The stream ended early: the error is anchored at its last token.
    assert_eq!(e.span, sp(1));
}

#[test]
fn trailing_tokens_are_fatal() {
    let (r, _) = parse_module(
        &vec![id("mod", 0), id("m", 1), grp(Delim::Brace, vec![], 2), id("junk", 3)],
        &vec![],
    );
    let e = r.expect_err("tokens after the module body must fail");
    assert_eq!(e.kind, ParseErrorKind::TrailingTokens);
    assert_eq!(e.span, sp(3));
}

#[test]
fn unterminated_item_is_fatal() {
    // No semicolon and no brace group follows: no item can be split off.
    let (r, _) = parse_module(&module(vec![id("type", 10), id("A", 11)]), &vec![]);
    let e = r.expect_err("an unterminated item must fail");
    assert_eq!(e.kind, ParseErrorKind::BadItem);
    assert_eq!(e.span, sp(10));
}

#[test]
fn malformed_visibility_is_not_fatal() {
    // `pub` alone before the module keyword is a plain public visibility;
    // a stray qualifier shape never aborts parsing by itself.
    let (r, _) = parse_module(
        &vec![id("pub", 0), id("mod", 1), id("m", 2), grp(Delim::Brace, vec![], 3)],
        &vec![],
    );
    let m = r.expect("a public module must parse");
    assert_eq!(m.vis, Vis::Public);
}

#[test]
fn non_literal_import_argument_is_fatal() {
    let body = vec![
        id("hot_functions_from_file", 10),
        pt('!', 11),
        grp(Delim::Paren, vec![Tok::Lit("42".to_string(), sp(12))], 13),
        pt(';', 14),
    ];
    let (r, _) = parse_module(&module(body), &vec![]);
    let e = r.expect_err("a non-string import argument must fail");
    assert_eq!(e.kind, ParseErrorKind::MalformedImportArg);
    assert_eq!(e.span, sp(13));
}

#[test]
fn unresolved_import_path_is_fatal() {
    let body = vec![
        id("hot_functions_from_file", 10),
        pt('!', 11),
        grp(Delim::Paren, vec![lit("missing.rs", 12)], 13),
        pt(';', 14),
    ];
    let (r, _) = parse_module(&module(body), &vec![]);
    let e = r.expect_err("an unresolved path must fail");
    assert_eq!(e.kind, ParseErrorKind::ExtractionFailed);
    assert_eq!(e.span, sp(12));
}

#[test]
fn failed_extraction_is_fatal() {
    let body = vec![
        id("hot_functions_from_file", 10),
        pt('!', 11),
        grp(Delim::Paren, vec![lit("broken.rs", 12)], 13),
        pt(';', 14),
    ];
    let imports = vec![ImportEntry { path: "broken.rs".to_string(), sigs: None }];
    let (r, _) = parse_module(&module(body), &imports);
    let e = r.expect_err("a failed extraction must fail");
    assert_eq!(e.kind, ParseErrorKind::ExtractionFailed);
    assert_eq!(e.span, sp(12));
}

#[test]
fn malformed_tagged_function_is_fatal() {
    // The marker is present and the item starts as a function, but the
    // parameter list is missing.
    let body = vec![
        pt('#', 10),
        grp(Delim::Bracket, vec![id("hot_function", 11)], 12),
        id("fn", 13),
        id("f", 14),
        grp(Delim::Brace, vec![], 15),
    ];
    let (r, _) = parse_module(&module(body), &vec![]);
    let e = r.expect_err("a malformed tagged function must fail");
    assert_eq!(e.kind, ParseErrorKind::BadItem);
    assert_eq!(e.span, Span { lo: 10, hi: 16 });
}

#[test]
fn parse_error_surfaces_through_expansion() {
    let (r, _) = hot_module::gen::expand(
        &vec![id("foo", 0)],
        &vec![],
        hot_module::ast::DeclSource {
            lib_name: "mylib".to_string(),
            lib_dir: "d".to_string(),
        },
    );
    match r.expect_err("expansion must surface the parse error") {
        ExpandError::Parse(e) => assert_eq!(e.kind, ParseErrorKind::ExpectedMod),
        other => panic!("expected a parse error, got {:?}", other),
    }
}

#[test]
fn refused_configuration_surfaces_through_expansion() {
    let (r, _) = hot_module::gen::expand(
        &module(vec![]),
        &vec![],
        hot_module::ast::DeclSource {
            lib_name: "not an ident".to_string(),
            lib_dir: "d".to_string(),
        },
    );
    match r.expect_err("expansion must surface the scaffolding refusal") {
        ExpandError::Assemble(hot_module::ast::AssembleError::Scaffold(e)) => {
            assert_eq!(e, hot_module::ast::ScaffoldError::BadLibName)
        }
        other => panic!("expected a scaffolding refusal, got {:?}", other),
    }
}
