//! The module body parser: it consumes the tokens of a module declaration,
//! classifies each body item as one of the three recognized declaration
//! forms or as a plain item, lowers recognized signatures to proxy
//! definitions, and passes everything else through untouched.
//!
//! The grammar and the whole pass are first written down as specification
//! functions; the executable parser is proved to return exactly their
//! value.

use vstd::prelude::*;

use crate::ast::{
    lemma_views_of_index, views_of, FnSig, ModuleDecl, OutItem, Param, ParseError, ParseErrorKind,
    ProxyFn, SFnSig, SModuleDecl, SOutItem, SParam, SProxyFn, SVis, Vis, Warning,
};
use crate::token::{toks_view, Delim, STok, Span, Tok};

verus! {

broadcast use
    crate::token::lemma_toks_view_len,
    crate::token::lemma_toks_view_index,
    crate::ast::lemma_views_of_len,
    crate::ast::lemma_views_of_index;

// ---------------------------------------------------------------------------
// Markers and token shapes
// ---------------------------------------------------------------------------
/// The name of the file-import directive.
pub open spec fn import_marker() -> Seq<char> {
    "hot_functions_from_file"@
}

/// The marker attribute of an inline-tagged function.
pub open spec fn fn_marker() -> Seq<char> {
    "hot_function"@
}

/// The marker attribute of a block-tagged signature group.
pub open spec fn group_marker() -> Seq<char> {
    "hot_functions"@
}

/// The token is an identifier with exactly the given text.
pub open spec fn is_ident(t: STok, name: Seq<char>) -> bool {
    t matches STok::Ident(s, _) && s == name
}

/// The token is an identifier.
pub open spec fn is_any_ident(t: STok) -> bool {
    t is Ident
}

/// The text of an identifier token.
pub open spec fn ident_text(t: STok) -> Seq<char> {
    match t {
        STok::Ident(s, _) => s,
        _ => Seq::empty(),
    }
}

/// The token is the given punctuation character.
pub open spec fn is_punct(t: STok, c: char) -> bool {
    t matches STok::Punct(c2, _) && c2 == c
}

/// The token is a group with the given delimiter.
pub open spec fn is_group(t: STok, d: Delim) -> bool {
    t matches STok::Group(d2, _, _) && d2 == d
}

/// The tokens inside a group.
pub open spec fn group_toks(t: STok) -> Seq<STok> {
    match t {
        STok::Group(_, ts, _) => ts,
        _ => Seq::empty(),
    }
}

/// The span to anchor a diagnostic at position `i`: the token there, or
/// the last token when the stream ended too early.
pub open spec fn span_at(ts: Seq<STok>, i: int) -> Span {
    if 0 <= i < ts.len() {
        crate::token::stok_span(ts[i])
    } else if ts.len() > 0 {
        crate::token::stok_span(ts[ts.len() - 1])
    } else {
        Span { lo: 0, hi: 0 }
    }
}

/// The region covered by a token sequence, from its first token to its
/// last.
pub open spec fn hull(ts: Seq<STok>) -> Span {
    if ts.len() == 0 {
        Span { lo: 0, hi: 0 }
    } else {
        Span {
            lo: crate::token::stok_span(ts[0]).lo,
            hi: crate::token::stok_span(ts[ts.len() - 1]).hi,
        }
    }
}

// ---------------------------------------------------------------------------
// Visibility
// ---------------------------------------------------------------------------
/// How many leading tokens form a visibility qualifier. A malformed or
/// absent qualifier is never an error: zero tokens are consumed.
pub open spec fn vis_len(ts: Seq<STok>) -> int {
    if ts.len() > 0 && is_ident(ts[0], "pub"@) {
        if ts.len() > 1 && is_group(ts[1], Delim::Paren) {
            2
        } else {
            1
        }
    } else {
        0
    }
}

/// The visibility the leading tokens declare; inherited when absent.
pub open spec fn vis_of(ts: Seq<STok>) -> SVis {
    if ts.len() > 0 && is_ident(ts[0], "pub"@) {
        if ts.len() > 1 && is_group(ts[1], Delim::Paren) {
            SVis::Restricted(group_toks(ts[1]))
        } else {
            SVis::Public
        }
    } else {
        SVis::Inherited
    }
}

// ---------------------------------------------------------------------------
// Attributes
// ---------------------------------------------------------------------------
/// How many leading tokens are outer attributes: repetitions of `#`
/// followed by a bracket group.
pub open spec fn attrs_len(ts: Seq<STok>) -> int
    decreases ts.len(),
{
    if ts.len() >= 2 && is_punct(ts[0], '#') && is_group(ts[1], Delim::Bracket) {
        2 + attrs_len(ts.skip(2))
    } else {
        0
    }
}

/// The bracketed tokens name exactly the given single-segment attribute
/// path: an identifier equal to `name`, not followed by a path separator.
pub open spec fn attr_is(inner: Seq<STok>, name: Seq<char>) -> bool {
    inner.len() >= 1 && is_ident(inner[0], name) && (inner.len() == 1 || !is_punct(
        inner[1],
        ':',
    ))
}

/// Some leading attribute of the item names exactly `name`.
pub open spec fn has_attr(ts: Seq<STok>, name: Seq<char>) -> bool
    decreases ts.len(),
{
    if ts.len() >= 2 && is_punct(ts[0], '#') && is_group(ts[1], Delim::Bracket) {
        attr_is(group_toks(ts[1]), name) || has_attr(ts.skip(2), name)
    } else {
        false
    }
}

// ---------------------------------------------------------------------------
// Item segmentation
// ---------------------------------------------------------------------------
/// How many tokens the payload of one generic item takes: everything up to
/// and including the first semicolon or the first brace group. `None` when
/// the stream ends without either, which is a fatal parse error.
pub open spec fn payload_len(ts: Seq<STok>) -> Option<int>
    decreases ts.len(),
{
    if ts.len() == 0 {
        None
    } else if is_punct(ts[0], ';') || is_group(ts[0], Delim::Brace) {
        Some(1)
    } else {
        match payload_len(ts.skip(1)) {
            Some(p) => Some(1 + p),
            None => None,
        }
    }
}

/// How many tokens one whole item takes: its attributes and its payload.
pub open spec fn item_len(ts: Seq<STok>) -> Option<int> {
    let a = attrs_len(ts);
    match payload_len(ts.skip(a)) {
        Some(p) => Some(a + p),
        None => None,
    }
}

/// The item length, clamped into range so that recursion on the remainder
/// is well founded; equal to the parsed length whenever one exists.
pub open spec fn item_len_c(ts: Seq<STok>) -> int {
    match item_len(ts) {
        Some(k) => if 1 <= k <= ts.len() {
            k
        } else {
            1
        },
        None => 1,
    }
}

// ---------------------------------------------------------------------------
// Classification
// ---------------------------------------------------------------------------
/// The payload is a macro invocation at item position: a name, a bang and
/// an argument group, with a trailing semicolon unless the group is braced.
/// Returns the name, the argument tokens and the span of the argument
/// group.
pub open spec fn macro_parts(payload: Seq<STok>) -> Option<(Seq<char>, Seq<STok>, Span)> {
    if payload.len() == 4 && is_any_ident(payload[0]) && is_punct(payload[1], '!') && payload[2]
        is Group && !is_group(payload[2], Delim::Brace) && is_punct(payload[3], ';') {
        Some((ident_text(payload[0]), group_toks(payload[2]), crate::token::stok_span(payload[2])))
    } else if payload.len() == 3 && is_any_ident(payload[0]) && is_punct(payload[1], '!')
        && is_group(payload[2], Delim::Brace) {
        Some((ident_text(payload[0]), group_toks(payload[2]), crate::token::stok_span(payload[2])))
    } else {
        None
    }
}

/// The payload starts like a function definition: an optional visibility,
/// then the function keyword.
pub open spec fn looks_like_fn(payload: Seq<STok>) -> bool {
    let v = vis_len(payload);
    payload.len() > v && is_ident(payload[v], "fn"@)
}

/// The payload is an extern block: the extern keyword, an optional ABI
/// literal, and a brace group.
pub open spec fn looks_like_extern(payload: Seq<STok>) -> bool {
    payload.len() >= 2 && is_ident(payload[0], "extern"@) && is_group(
        payload[payload.len() - 1],
        Delim::Brace,
    ) && (payload.len() == 2 || (payload.len() == 3 && (payload[1] is LitStr || payload[1]
        is Lit)))
}

/// Which of the four forms an item is. Classification looks only at the
/// item's own tokens; an item matching none of the recognized forms is
/// plain, silently and by design.
pub enum SClass {
    FileImport,
    InlineTagged,
    BlockTagged,
    Plain,
}

/// Classifies one item. The file-import directive is recognized by its
/// exact macro name; the other two forms by an exact marker-attribute
/// match together with the right item shape.
pub open spec fn classify(item: Seq<STok>) -> SClass {
    let payload = item.skip(attrs_len(item));
    if macro_parts(payload) matches Some((name, _, _)) && name == import_marker() {
        SClass::FileImport
    } else if has_attr(item, fn_marker()) && looks_like_fn(payload) {
        SClass::InlineTagged
    } else if has_attr(item, group_marker()) && looks_like_extern(payload) {
        SClass::BlockTagged
    } else {
        SClass::Plain
    }
}

// ---------------------------------------------------------------------------
// Signature parsing
// ---------------------------------------------------------------------------
/// How many tokens the type after a parameter colon takes: everything up
/// to the first comma that stands at angle-bracket depth zero. An arrow's
/// greater-than sign does not close an angle bracket.
pub open spec fn type_len(ts: Seq<STok>, depth: int) -> int
    decreases ts.len(),
{
    if ts.len() == 0 {
        0
    } else if depth == 0 && is_punct(ts[0], ',') {
        0
    } else if ts.len() >= 2 && is_punct(ts[0], '-') && is_punct(ts[1], '>') {
        2 + type_len(ts.skip(2), depth)
    } else {
        let d2 = if is_punct(ts[0], '<') {
            depth + 1
        } else if is_punct(ts[0], '>') && depth > 0 {
            depth - 1
        } else {
            depth
        };
        1 + type_len(ts.skip(1), d2)
    }
}

/// The type length, clamped into range; equal to the measured length,
/// which always is in range.
pub open spec fn type_len_c(ts: Seq<STok>) -> int {
    let t = type_len(ts, 0);
    if 0 <= t <= ts.len() {
        t
    } else {
        0
    }
}

/// Parses the comma-separated parameters inside the parentheses of a
/// signature: each is a name, a colon and a nonempty type; a trailing
/// comma is allowed. `None` when the tokens do not fit that shape.
pub open spec fn parse_params(inner: Seq<STok>) -> Option<Seq<SParam>>
    decreases inner.len(),
{
    if inner.len() == 0 {
        Some(Seq::empty())
    } else if inner.len() >= 2 && is_any_ident(inner[0]) && is_punct(inner[1], ':') {
        let tl = type_len_c(inner.skip(2));
        if tl == 0 {
            None
        } else {
            let p = SParam { name: ident_text(inner[0]), ty: inner.subrange(2, 2 + tl) };
            if 2 + tl == inner.len() {
                Some(seq![p])
            } else {
                match parse_params(inner.skip(3 + tl)) {
                    Some(ps) => Some(seq![p] + ps),
                    None => None,
                }
            }
        }
    } else {
        None
    }
}

/// A parsed signature, before a span is attached: the canonical parts and
/// whether the declaration ended in a brace-delimited body (as an
/// inline-tagged function does) or in a semicolon (as a signature inside
/// a block-tagged group does).
pub struct SSigParse {
    pub vis: SVis,
    pub name: Seq<char>,
    pub params: Seq<SParam>,
    pub ret: Option<Seq<STok>>,
    pub end_body: bool,
}

/// Parses a whole function declaration payload: visibility, the function
/// keyword, a name, a parenthesized parameter list, an optional return
/// type after an arrow, and a final body or semicolon. `None` when the
/// payload does not fit that shape.
pub open spec fn parse_sig(payload: Seq<STok>) -> Option<SSigParse> {
    let v = vis_len(payload);
    if payload.len() >= v + 4 && is_ident(payload[v], "fn"@) && is_any_ident(payload[v + 1])
        && is_group(payload[v + 2], Delim::Paren) {
        let rest = payload.skip(v + 3);
        let last = payload[payload.len() - 1];
        let end_ok = is_punct(last, ';') || is_group(last, Delim::Brace);
        match parse_params(group_toks(payload[v + 2])) {
            None => None,
            Some(ps) => if rest.len() == 1 && end_ok {
                Some(
                    SSigParse {
                        vis: vis_of(payload),
                        name: ident_text(payload[v + 1]),
                        params: ps,
                        ret: None,
                        end_body: is_group(last, Delim::Brace),
                    },
                )
            } else if rest.len() >= 4 && is_punct(rest[0], '-') && is_punct(rest[1], '>')
                && end_ok {
                Some(
                    SSigParse {
                        vis: vis_of(payload),
                        name: ident_text(payload[v + 1]),
                        params: ps,
                        ret: Some(rest.subrange(2, rest.len() - 1)),
                        end_body: is_group(last, Delim::Brace),
                    },
                )
            } else {
                None
            },
        }
    } else {
        None
    }
}

// ---------------------------------------------------------------------------
// Lowering
// ---------------------------------------------------------------------------
/// Lowers one canonical signature to its proxy definition: the externally
/// visible signature is kept identical, the resolved symbol is the
/// signature's own name verbatim, and the arguments are forwarded in
/// declaration order. Pure and total: identical inputs give the identical
/// proxy.
pub open spec fn lower_sig(sig: SFnSig) -> SProxyFn {
    SProxyFn {
        sig: sig,
        symbol: sig.name,
        arg_names: sig.params.map(|i: int, p: SParam| p.name),
    }
}

/// Builds the signature a parsed declaration denotes, anchored at the
/// given span.
pub open spec fn sig_of_parse(p: SSigParse, span: Span) -> SFnSig {
    SFnSig { vis: p.vis, name: p.name, params: p.params, ret: p.ret, span: span }
}

// ---------------------------------------------------------------------------
// The signature extractor's answers
// ---------------------------------------------------------------------------
/// One answer of the signature extractor, the collaborator that reads an
/// external source: for a path, either the ordered signatures it declared,
/// or `None` when the source failed to parse.
#[derive(Debug, PartialEq)]
pub struct ImportEntry {
    pub path: String,
    pub sigs: Option<Vec<FnSig>>,
}

#[verifier::ext_equal]
pub struct SImportEntry {
    pub path: Seq<char>,
    pub sigs: Option<Seq<SFnSig>>,
}

impl View for ImportEntry {
    type V = SImportEntry;

    open spec fn view(&self) -> SImportEntry {
        SImportEntry {
            path: self.path@,
            sigs: match &self.sigs {
                Some(v) => Some(views_of(v@)),
                None => None,
            },
        }
    }
}

/// Looks a path up among the extractor's answers: the first entry with
/// that path, or `None` when the path was never resolved.
pub open spec fn lookup_import(entries: Seq<SImportEntry>, path: Seq<char>) -> Option<
    Option<Seq<SFnSig>>,
>
    decreases entries.len(),
{
    if entries.len() == 0 {
        None
    } else if entries[0].path == path {
        Some(entries[0].sigs)
    } else {
        lookup_import(entries.skip(1), path)
    }
}

// ---------------------------------------------------------------------------
// Expansion
// ---------------------------------------------------------------------------
/// What parsing a stretch of items produces: the expanded items in
/// encounter order, or a fatal error; and the warnings recorded on the
/// way, in order, kept in either case.
pub type SItemsResult = (Result<Seq<SOutItem>, ParseError>, Seq<Warning>);

/// Expands the inside of a block-tagged group: every signature becomes a
/// proxy, in listed order; every other item is skipped with one warning.
/// A tail that cannot be split into items is skipped with one warning as
/// well.
pub open spec fn expand_block(inner: Seq<STok>) -> (Seq<SOutItem>, Seq<Warning>)
    decreases inner.len(),
{
    if inner.len() == 0 {
        (Seq::empty(), Seq::empty())
    } else if item_len(inner) is None {
        (Seq::empty(), seq![Warning { span: hull(inner) }])
    } else {
        let k = item_len_c(inner);
        let entry = inner.subrange(0, k);
        let rest = expand_block(inner.skip(k));
        let parsed = parse_sig(entry.skip(attrs_len(entry)));
        if parsed matches Some(p) && !p.end_body {
            (
                seq![SOutItem::Proxy(lower_sig(sig_of_parse(parsed->Some_0, hull(entry))))]
                    + rest.0,
                rest.1,
            )
        } else {
            (rest.0, seq![Warning { span: hull(entry) }] + rest.1)
        }
    }
}

/// Expands one classified item:
/// - a file-import directive becomes the proxies of every signature the
///   extractor returned for its path, in extraction order; a non-literal
///   argument or a failed extraction is fatal;
/// - an inline-tagged function keeps only its signature, which becomes one
///   proxy; its body is discarded;
/// - a block-tagged group becomes the proxies of the signatures it lists;
/// - any other item passes through unchanged, as its original tokens.
pub open spec fn expand_item(item: Seq<STok>, imports: Seq<SImportEntry>) -> SItemsResult {
    let payload = item.skip(attrs_len(item));
    match classify(item) {
        SClass::FileImport => match macro_parts(payload) {
            Some((name, inner, gsp)) => if inner.len() == 1 && inner[0] is LitStr {
                let path = match inner[0] {
                    STok::LitStr(s, _) => s,
                    _ => Seq::empty(),
                };
                let psp = crate::token::stok_span(inner[0]);
                match lookup_import(imports, path) {
                    Some(Some(sigs)) => (
                        Ok(sigs.map(|i: int, s: SFnSig| SOutItem::Proxy(lower_sig(s)))),
                        Seq::empty(),
                    ),
                    Some(None) => (
                        Err(ParseError { kind: ParseErrorKind::ExtractionFailed, span: psp }),
                        Seq::empty(),
                    ),
                    None => (
                        Err(ParseError { kind: ParseErrorKind::ExtractionFailed, span: psp }),
                        Seq::empty(),
                    ),
                }
            } else {
                (
                    Err(ParseError { kind: ParseErrorKind::MalformedImportArg, span: gsp }),
                    Seq::empty(),
                )
            },
            None => (
                Err(ParseError { kind: ParseErrorKind::BadItem, span: hull(item) }),
                Seq::empty(),
            ),
        },
        SClass::InlineTagged => {
            let parsed = parse_sig(payload);
            if parsed matches Some(p) && p.end_body {
                (
                    Ok(
                        seq![
                            SOutItem::Proxy(lower_sig(sig_of_parse(parsed->Some_0, hull(item)))),
                        ],
                    ),
                    Seq::empty(),
                )
            } else {
                (
                    Err(ParseError { kind: ParseErrorKind::BadItem, span: hull(item) }),
                    Seq::empty(),
                )
            }
        },
        SClass::BlockTagged => {
            let r = expand_block(group_toks(payload[payload.len() - 1]));
            (Ok(r.0), r.1)
        },
        SClass::Plain => (Ok(seq![SOutItem::Plain(item)]), Seq::empty()),
    }
}

/// Parses and expands a whole stretch of body items: items are consumed
/// one at a time; each expansion is inlined at the point its item stood;
/// a fatal error stops everything and no items are produced.
pub open spec fn parse_items_spec(toks: Seq<STok>, imports: Seq<SImportEntry>) -> SItemsResult
    decreases toks.len(),
{
    if toks.len() == 0 {
        (Ok(Seq::empty()), Seq::empty())
    } else if item_len(toks) is None {
        (
            Err(ParseError { kind: ParseErrorKind::BadItem, span: crate::token::stok_span(toks[0]) }),
            Seq::empty(),
        )
    } else {
        let k = item_len_c(toks);
        let first = expand_item(toks.subrange(0, k), imports);
        match first.0 {
            Err(e) => (Err(e), first.1),
            Ok(out1) => {
                let rest = parse_items_spec(toks.skip(k), imports);
                match rest.0 {
                    Err(e) => (Err(e), first.1 + rest.1),
                    Ok(out2) => (Ok(out1 + out2), first.1 + rest.1),
                }
            },
        }
    }
}

/// Parses a whole module declaration: an optional visibility (never an
/// error), the module keyword, a name, and a brace-delimited body whose
/// items are expanded in encounter order. The parsed declaration carries
/// no configuration yet.
pub open spec fn parse_module_spec(toks: Seq<STok>, imports: Seq<SImportEntry>) -> (Result<
    SModuleDecl,
    ParseError,
>, Seq<Warning>) {
    let v = vis_len(toks);
    if !(toks.len() > v && is_ident(toks[v], "mod"@)) {
        (
            Err(ParseError { kind: ParseErrorKind::ExpectedMod, span: span_at(toks, v) }),
            Seq::empty(),
        )
    } else if !(toks.len() > v + 1 && is_any_ident(toks[v + 1])) {
        (
            Err(ParseError { kind: ParseErrorKind::ExpectedIdent, span: span_at(toks, v + 1) }),
            Seq::empty(),
        )
    } else if !(toks.len() > v + 2 && is_group(toks[v + 2], Delim::Brace)) {
        (
            Err(ParseError { kind: ParseErrorKind::ExpectedBody, span: span_at(toks, v + 2) }),
            Seq::empty(),
        )
    } else if toks.len() > v + 3 {
        (
            Err(ParseError { kind: ParseErrorKind::TrailingTokens, span: span_at(toks, v + 3) }),
            Seq::empty(),
        )
    } else {
        let body = parse_items_spec(group_toks(toks[v + 2]), imports);
        match body.0 {
            Err(e) => (Err(e), body.1),
            Ok(items) => (
                Ok(
                    SModuleDecl {
                        vis: vis_of(toks),
                        ident: ident_text(toks[v + 1]),
                        items: items,
                        source: None,
                    },
                ),
                body.1,
            ),
        }
    }
}

/// The value of an executable items result, for stating that the parser
/// returns exactly the value of its specification function.
pub open spec fn result_view(r: Result<Vec<OutItem>, ParseError>) -> Result<
    Seq<SOutItem>,
    ParseError,
> {
    match r {
        Ok(v) => Ok(views_of(v@)),
        Err(e) => Err(e),
    }
}

// ---------------------------------------------------------------------------
// Executable helpers
// ---------------------------------------------------------------------------
/// Compares a string against a literal, by contents.
fn str_eq(a: &String, b: &str) -> (r: bool)
    ensures
        r == (a@ == b@),
{
    broadcast use vstd::string::to_string_from_display_ensures_for_str;

    let bs: String = b.to_string();
    *a == bs
}

/// The token is an identifier with exactly the given text.
fn tok_is_ident(t: &Tok, name: &str) -> (r: bool)
    ensures
        r == is_ident(t@, name@),
{
    match t {
        Tok::Ident(s, _) => str_eq(s, name),
        _ => false,
    }
}

/// The token is an identifier.
fn tok_is_any_ident(t: &Tok) -> (r: bool)
    ensures
        r == is_any_ident(t@),
{
    match t {
        Tok::Ident(_, _) => true,
        _ => false,
    }
}

/// The text of an identifier token.
fn tok_ident_text(t: &Tok) -> (r: String)
    ensures
        r@ == ident_text(t@),
{
    match t {
        Tok::Ident(s, _) => s.clone(),
        _ => String::new(),
    }
}

/// The token is the given punctuation character.
fn tok_is_punct(t: &Tok, c: char) -> (r: bool)
    ensures
        r == is_punct(t@, c),
{
    match t {
        Tok::Punct(c2, _) => *c2 == c,
        _ => false,
    }
}

/// The token is a group with the given delimiter.
fn tok_is_group(t: &Tok, d: Delim) -> (r: bool)
    ensures
        r == is_group(t@, d),
{
    match t {
        Tok::Group(d2, _, _) => *d2 == d,
        _ => false,
    }
}

/// The token is a literal of any kind.
fn tok_is_lit(t: &Tok) -> (r: bool)
    ensures
        r == (t@ is LitStr || t@ is Lit),
{
    match t {
        Tok::LitStr(_, _) => true,
        Tok::Lit(_, _) => true,
        _ => false,
    }
}

/// The tokens inside a group token, cloned.
fn tok_group_toks(t: &Tok) -> (r: Vec<Tok>)
    ensures
        toks_view(r@) == group_toks(t@),
{
    match t {
        Tok::Group(_, g, _) => crate::token::clone_toks(g),
        _ => Vec::new(),
    }
}

/// The diagnostic anchor for position `i`.
fn span_at_exec(ts: &Vec<Tok>, i: usize) -> (r: Span)
    ensures
        r == span_at(toks_view(ts@), i as int),
{
    if i < ts.len() {
        ts[i].span()
    } else if ts.len() > 0 {
        ts[ts.len() - 1].span()
    } else {
        Span { lo: 0, hi: 0 }
    }
}

/// The region covered by the tokens from position `i` on.
fn hull_at(ts: &Vec<Tok>, i: usize) -> (r: Span)
    requires
        i <= ts.len(),
    ensures
        r == hull(toks_view(ts@).skip(i as int)),
{
    if i == ts.len() {
        Span { lo: 0, hi: 0 }
    } else {
        Span { lo: ts[i].span().lo, hi: ts[ts.len() - 1].span().hi }
    }
}

/// Clones the tokens of the range `a..b`.
fn slice_toks(ts: &Vec<Tok>, a: usize, b: usize) -> (r: Vec<Tok>)
    requires
        a <= b <= ts.len(),
    ensures
        toks_view(r@) == toks_view(ts@).subrange(a as int, b as int),
{
    let mut r: Vec<Tok> = Vec::new();
    let mut i: usize = a;
    while i < b
        invariant
            a <= i <= b <= ts.len(),
            r@.len() == i - a,
            forall|j: int| 0 <= j < r@.len() ==> #[trigger] r@[j]@ == ts@[a + j]@,
        decreases b - i,
    {
        r.push(ts[i].clone());
        i += 1;
    }
    proof {
        assert(toks_view(r@) =~= toks_view(ts@).subrange(a as int, b as int));
    }
    r
}

/// Parses an optional leading visibility at position `i`: the qualifier
/// and the position after it. Never fails.
fn parse_vis_at(ts: &Vec<Tok>, i: usize) -> (r: (Vis, usize))
    requires
        i <= ts.len(),
    ensures
        r.1 - i == vis_len(toks_view(ts@).skip(i as int)),
        r.0@ == vis_of(toks_view(ts@).skip(i as int)),
        i <= r.1 <= ts.len(),
{
    if i < ts.len() && tok_is_ident(&ts[i], "pub") {
        if i + 1 < ts.len() && tok_is_group(&ts[i + 1], Delim::Paren) {
            (Vis::Restricted(tok_group_toks(&ts[i + 1])), i + 2)
        } else {
            (Vis::Public, i + 1)
        }
    } else {
        (Vis::Inherited, i)
    }
}

/// Scans past the leading attributes from position `i`; returns the
/// position after them.
fn scan_attrs(ts: &Vec<Tok>, i: usize) -> (r: usize)
    requires
        i <= ts.len(),
    ensures
        r - i == attrs_len(toks_view(ts@).skip(i as int)),
        i <= r <= ts.len(),
    decreases ts.len() - i,
{
    if i < ts.len() && i + 1 < ts.len() && tok_is_punct(&ts[i], '#') && tok_is_group(
        &ts[i + 1],
        Delim::Bracket,
    ) {
        let r = scan_attrs(ts, i + 2);
        proof {
            assert(toks_view(ts@).skip(i as int).skip(2) =~= toks_view(ts@).skip(i as int + 2));
        }
        r
    } else {
        i
    }
}

/// The bracketed tokens name exactly the given attribute path.
fn attr_inner_is(inner: &Vec<Tok>, name: &str) -> (r: bool)
    ensures
        r == attr_is(toks_view(inner@), name@),
{
    if inner.len() >= 1 && tok_is_ident(&inner[0], name) {
        inner.len() == 1 || !tok_is_punct(&inner[1], ':')
    } else {
        false
    }
}

/// Some attribute from position `i` on names exactly `name`.
fn has_attr_at(item: &Vec<Tok>, i: usize, name: &str) -> (r: bool)
    requires
        i <= item.len(),
    ensures
        r == has_attr(toks_view(item@).skip(i as int), name@),
    decreases item.len() - i,
{
    if i < item.len() && i + 1 < item.len() && tok_is_punct(&item[i], '#') && tok_is_group(
        &item[i + 1],
        Delim::Bracket,
    ) {
        let named = match &item[i + 1] {
            Tok::Group(_, g, _) => attr_inner_is(g, name),
            _ => false,
        };
        if named {
            true
        } else {
            let r = has_attr_at(item, i + 2, name);
            proof {
                assert(toks_view(item@).skip(i as int).skip(2) =~= toks_view(item@).skip(
                    i as int + 2,
                ));
            }
            r
        }
    } else {
        false
    }
}

/// Scans one item payload from position `i`: the position after its first
/// semicolon or brace group, or `None` when the stream ends first.
fn scan_payload(ts: &Vec<Tok>, i: usize) -> (r: Option<usize>)
    requires
        i <= ts.len(),
    ensures
        match r {
            Some(e) => payload_len(toks_view(ts@).skip(i as int)) == Some((e - i) as int) && i < e
                <= ts.len(),
            None => payload_len(toks_view(ts@).skip(i as int)) is None,
        },
    decreases ts.len() - i,
{
    if i >= ts.len() {
        None
    } else if tok_is_punct(&ts[i], ';') || tok_is_group(&ts[i], Delim::Brace) {
        Some(i + 1)
    } else {
        let r = scan_payload(ts, i + 1);
        proof {
            assert(toks_view(ts@).skip(i as int).skip(1) =~= toks_view(ts@).skip(i as int + 1));
        }
        r
    }
}

/// Scans one whole item from position `i`: the position after it, or
/// `None` when no item terminator follows.
fn item_end(ts: &Vec<Tok>, i: usize) -> (r: Option<usize>)
    requires
        i <= ts.len(),
    ensures
        match r {
            Some(e) => item_len(toks_view(ts@).skip(i as int)) == Some((e - i) as int) && i < e
                <= ts.len(),
            None => item_len(toks_view(ts@).skip(i as int)) is None,
        },
{
    let a = scan_attrs(ts, i);
    let r = scan_payload(ts, a);
    proof {
        assert(toks_view(ts@).skip(i as int).skip((a - i) as int) =~= toks_view(ts@).skip(
            a as int,
        ));
    }
    r
}

/// Clones a signature list, keeping its value.
fn clone_sigs(v: &Vec<FnSig>) -> (r: Vec<FnSig>)
    ensures
        views_of(r@) == views_of(v@),
{
    let mut r: Vec<FnSig> = Vec::new();
    let mut i: usize = 0;
    while i < v.len()
        invariant
            i <= v.len(),
            r@.len() == i,
            forall|j: int| 0 <= j < i as int ==> #[trigger] r@[j]@ == v@[j]@,
        decreases v.len() - i,
    {
        r.push(v[i].clone());
        i += 1;
    }
    proof {
        assert(views_of(r@) =~= views_of(v@));
    }
    r
}

/// Scans the type after a parameter colon from position `i`, tracking the
/// angle-bracket depth; returns the position after the type.
fn scan_type(ts: &Vec<Tok>, i: usize, depth: usize) -> (r: usize)
    requires
        i <= ts.len(),
        depth <= i,
    ensures
        r - i == type_len(toks_view(ts@).skip(i as int), depth as int),
        i <= r <= ts.len(),
    decreases ts.len() - i,
{
    if i >= ts.len() {
        i
    } else if depth == 0 && tok_is_punct(&ts[i], ',') {
        i
    } else if i + 1 < ts.len() && tok_is_punct(&ts[i], '-') && tok_is_punct(&ts[i + 1], '>') {
        let r = scan_type(ts, i + 2, depth);
        proof {
            assert(toks_view(ts@).skip(i as int).skip(2) =~= toks_view(ts@).skip(i as int + 2));
        }
        r
    } else {
        let d2 = if tok_is_punct(&ts[i], '<') {
            depth + 1
        } else if tok_is_punct(&ts[i], '>') && depth > 0 {
            depth - 1
        } else {
            depth
        };
        let r = scan_type(ts, i + 1, d2);
        proof {
            assert(toks_view(ts@).skip(i as int).skip(1) =~= toks_view(ts@).skip(i as int + 1));
        }
        r
    }
}

/// Parses the parameters of a signature from position `i`.
fn parse_params_at(inner: &Vec<Tok>, i: usize) -> (r: Option<Vec<Param>>)
    requires
        i <= inner.len(),
    ensures
        match r {
            Some(ps) => parse_params(toks_view(inner@).skip(i as int)) == Some(views_of(ps@)),
            None => parse_params(toks_view(inner@).skip(i as int)) is None,
        },
    decreases inner.len() - i,
{
    let ghost sv = toks_view(inner@).skip(i as int);
    if i == inner.len() {
        let ps: Vec<Param> = Vec::new();
        proof {
            assert(views_of(ps@) =~= Seq::<SParam>::empty());
        }
        Some(ps)
    } else if i + 1 < inner.len() && tok_is_any_ident(&inner[i]) && tok_is_punct(
        &inner[i + 1],
        ':',
    ) {
        let te = scan_type(inner, i + 2, 0);
        proof {
            assert(sv.skip(2) =~= toks_view(inner@).skip(i as int + 2));
        }
        if te == i + 2 {
            None
        } else {
            let ty = slice_toks(inner, i + 2, te);
            let p = Param { name: tok_ident_text(&inner[i]), ty };
            proof {
                assert(sv.subrange(2, 2 + (te - (i + 2)) as int) =~= toks_view(inner@).subrange(
                    i as int + 2,
                    te as int,
                ));
            }
            if te == inner.len() {
                let mut ps: Vec<Param> = Vec::new();
                ps.push(p);
                proof {
                    assert(views_of(ps@) =~= seq![ps@[0]@]);
                }
                Some(ps)
            } else {
                proof {
                    assert(sv.skip(3 + (te - (i + 2)) as int) =~= toks_view(inner@).skip(
                        te as int + 1,
                    ));
                }
                match parse_params_at(inner, te + 1) {
                    Some(ps) => {
                        let mut front: Vec<Param> = Vec::new();
                        front.push(p);
                        let mut rest = ps;
                        let ghost restv = views_of(rest@);
                        front.append(&mut rest);
                        proof {
                            assert(views_of(front@) =~= seq![front@[0]@] + restv);
                        }
                        Some(front)
                    },
                    None => None,
                }
            }
        }
    } else {
        None
    }
}

/// A parsed declaration, before its span is attached.
pub struct SigParse {
    pub vis: Vis,
    pub name: String,
    pub params: Vec<Param>,
    pub ret: Option<Vec<Tok>>,
    pub end_body: bool,
}

impl View for SigParse {
    type V = SSigParse;

    open spec fn view(&self) -> SSigParse {
        SSigParse {
            vis: self.vis@,
            name: self.name@,
            params: views_of(self.params@),
            ret: match &self.ret {
                Some(ts) => Some(toks_view(ts@)),
                None => None,
            },
            end_body: self.end_body,
        }
    }
}

/// Parses a whole function declaration payload, or refuses it.
fn parse_sig_exec(payload: &Vec<Tok>) -> (r: Option<SigParse>)
    ensures
        match r {
            Some(p) => parse_sig(toks_view(payload@)) == Some(p@),
            None => parse_sig(toks_view(payload@)) is None,
        },
{
    let ghost pv = toks_view(payload@);
    let (vis, v) = parse_vis_at(payload, 0);
    proof {
        assert(pv.skip(0) =~= pv);
    }
    if payload.len() - v >= 4 && tok_is_ident(&payload[v], "fn") && tok_is_any_ident(
        &payload[v + 1],
    ) && tok_is_group(&payload[v + 2], Delim::Paren) {
        let pg = tok_group_toks(&payload[v + 2]);
        let last_i = payload.len() - 1;
        let end_ok = tok_is_punct(&payload[last_i], ';') || tok_is_group(
            &payload[last_i],
            Delim::Brace,
        );
        let end_body = tok_is_group(&payload[last_i], Delim::Brace);
        proof {
            assert(toks_view(pg@).skip(0) =~= toks_view(pg@));
        }
        match parse_params_at(&pg, 0) {
            None => None,
            Some(ps) => {
                let ghost rest = pv.skip(v as int + 3);
                if payload.len() - v == 4 && end_ok {
                    Some(
                        SigParse {
                            vis,
                            name: tok_ident_text(&payload[v + 1]),
                            params: ps,
                            ret: None,
                            end_body,
                        },
                    )
                } else if payload.len() - v >= 7 && tok_is_punct(&payload[v + 3], '-')
                    && tok_is_punct(&payload[v + 4], '>') && end_ok {
                    let ret = slice_toks(payload, v + 5, last_i);
                    proof {
                        assert(rest.subrange(2, rest.len() - 1) =~= pv.subrange(
                            v as int + 5,
                            last_i as int,
                        ));
                    }
                    Some(
                        SigParse {
                            vis,
                            name: tok_ident_text(&payload[v + 1]),
                            params: ps,
                            ret: Some(ret),
                            end_body,
                        },
                    )
                } else {
                    None
                }
            },
        }
    } else {
        None
    }
}

// ---------------------------------------------------------------------------
// Function lowering
// ---------------------------------------------------------------------------
/// Lowers one canonical signature to its proxy definition. The proxy keeps
/// the signature untouched; its body, rendered later, fetches the current
/// backing implementation, resolves the signature's own name in it, and
/// forwards the arguments in declaration order.
pub fn lower(sig: FnSig) -> (r: ProxyFn)
    ensures
        r@ == lower_sig(sig@),
{
    let mut names: Vec<String> = Vec::new();
    let mut k: usize = 0;
    while k < sig.params.len()
        invariant
            k <= sig.params.len(),
            names@.len() == k,
            forall|j: int| 0 <= j < k as int ==> #[trigger] names@[j]@ == sig.params@[j]@.name,
        decreases sig.params.len() - k,
    {
        names.push(sig.params[k].name.clone());
        k += 1;
    }
    let symbol = sig.name.clone();
    let r = ProxyFn { sig, symbol, arg_names: names };
    proof {
        assert(views_of(r.arg_names@) =~= r.sig@.params.map(|i: int, p: SParam| p.name));
        assert(r@ =~= lower_sig(r.sig@));
    }
    r
}

// ---------------------------------------------------------------------------
// Import lookup
// ---------------------------------------------------------------------------
/// The value of one extractor answer's payload.
pub open spec fn opt_sigs_view(o: Option<Vec<FnSig>>) -> Option<Seq<SFnSig>> {
    match o {
        Some(v) => Some(views_of(v@)),
        None => None,
    }
}

/// Finds the extractor's answer for a path.
fn lookup_import_exec(imports: &Vec<ImportEntry>, path: &String) -> (r: Option<
    Option<Vec<FnSig>>,
>)
    ensures
        match r {
            Some(o) => lookup_import(views_of(imports@), path@) == Some(opt_sigs_view(o)),
            None => lookup_import(views_of(imports@), path@) is None,
        },
{
    let ghost iv = views_of(imports@);
    proof {
        crate::ast::lemma_views_of_len(imports@);
        assert(iv.skip(0) =~= iv);
    }
    let mut i: usize = 0;
    while i < imports.len()
        invariant
            i <= imports.len(),
            iv == views_of(imports@),
            iv.len() == imports@.len(),
            lookup_import(iv, path@) == lookup_import(iv.skip(i as int), path@),
        decreases imports.len() - i,
    {
        proof {
            lemma_views_of_index(imports@, i as int);
            assert(iv.skip(i as int)[0] == iv[i as int]);
        }
        if str_eq(&imports[i].path, path.as_str()) {
            let found = match &imports[i].sigs {
                Some(v) => Some(clone_sigs(v)),
                None => None,
            };
            proof {
                assert(lookup_import(iv.skip(i as int), path@) == Some(imports@[i as int]@.sigs));
            }
            return Some(found);
        }
        proof {
            assert(iv.skip(i as int).skip(1) =~= iv.skip(i as int + 1));
            assert(lookup_import(iv.skip(i as int), path@) == lookup_import(
                iv.skip(i as int + 1),
                path@,
            ));
        }
        i += 1;
    }
    proof {
        assert(iv.skip(imports.len() as int) =~= Seq::<SImportEntry>::empty());
    }
    None
}

// ---------------------------------------------------------------------------
// Expansion
// ---------------------------------------------------------------------------
/// Recognizes a macro invocation payload and takes it apart.
fn macro_parts_exec(payload: &Vec<Tok>) -> (r: Option<(String, Vec<Tok>, Span)>)
    ensures
        match r {
            Some(t) => macro_parts(toks_view(payload@)) == Some((t.0@, toks_view(t.1@), t.2)),
            None => macro_parts(toks_view(payload@)) is None,
        },
{
    if payload.len() == 4 && tok_is_any_ident(&payload[0]) && tok_is_punct(&payload[1], '!') && (
    tok_is_group(&payload[2], Delim::Paren) || tok_is_group(&payload[2], Delim::Bracket))
        && tok_is_punct(&payload[3], ';') {
        Some((tok_ident_text(&payload[0]), tok_group_toks(&payload[2]), payload[2].span()))
    } else if payload.len() == 3 && tok_is_any_ident(&payload[0]) && tok_is_punct(&payload[1], '!')
        && tok_is_group(&payload[2], Delim::Brace) {
        Some((tok_ident_text(&payload[0]), tok_group_toks(&payload[2]), payload[2].span()))
    } else {
        None
    }
}

/// Expands the inside of a block-tagged group.
fn expand_block_exec(inner: Vec<Tok>) -> (r: (Vec<OutItem>, Vec<Warning>))
    ensures
        views_of(r.0@) == expand_block(toks_view(inner@)).0,
        r.1@ == expand_block(toks_view(inner@)).1,
{
    let ghost iv = toks_view(inner@);
    let mut out: Vec<OutItem> = Vec::new();
    let mut warns: Vec<Warning> = Vec::new();
    proof {
        crate::token::lemma_toks_view_len(inner@);
        assert(iv.skip(0) =~= iv);
        assert(views_of(out@) =~= Seq::<SOutItem>::empty());
        assert(Seq::<SOutItem>::empty() + expand_block(iv).0 =~= expand_block(iv).0);
        assert(Seq::<Warning>::empty() + expand_block(iv).1 =~= expand_block(iv).1);
    }
    let mut i: usize = 0;
    while i < inner.len()
        invariant
            i <= inner.len(),
            iv == toks_view(inner@),
            iv.len() == inner@.len(),
            expand_block(iv).0 == views_of(out@) + expand_block(iv.skip(i as int)).0,
            expand_block(iv).1 == warns@ + expand_block(iv.skip(i as int)).1,
        decreases inner.len() - i,
    {
        let ghost j = i as int;
        let ghost sj = iv.skip(j);
        match item_end(&inner, i) {
            None => {
                let w = Warning { span: hull_at(&inner, i) };
                warns.push(w);
                proof {
                    assert(expand_block(sj).0 =~= Seq::<SOutItem>::empty());
                    assert(expand_block(sj).1 =~= seq![w]);
                    assert(views_of(out@) + Seq::<SOutItem>::empty() =~= views_of(out@));
                    assert(warns@ =~= warns@.drop_last() + seq![w]);
                    assert(warns@.drop_last() + (seq![w] + Seq::<Warning>::empty()) =~= warns@);
                    assert(expand_block(iv).1 =~= warns@);
                }
                return (out, warns);
            },
            Some(e) => {
                let entry = slice_toks(&inner, i, e);
                proof {
                    assert(sj.subrange(0, e - j) =~= iv.subrange(j, e as int));
                    assert(item_len_c(sj) == e - j);
                    assert(sj.skip(e - j) =~= iv.skip(e as int));
                    assert(toks_view(entry@).skip(0) =~= toks_view(entry@));
                }
                let a = scan_attrs(&entry, 0);
                let pay = slice_toks(&entry, a, entry.len());
                proof {
                    assert(toks_view(entry@).subrange(a as int, entry@.len() as int)
                        =~= toks_view(entry@).skip(a as int));
                }
                let h = hull_at(&entry, 0);
                let parsed = parse_sig_exec(&pay);
                let ghost rest = expand_block(iv.skip(e as int));
                match parsed {
                    Some(p) => {
                        if !p.end_body {
                            let sig = FnSig {
                                vis: p.vis,
                                name: p.name,
                                params: p.params,
                                ret: p.ret,
                                span: h,
                            };
                            let ghost oldout = views_of(out@);
                            let px = lower(sig);
                            let ghost pxv = SOutItem::Proxy(px@);
                            out.push(OutItem::Proxy(px));
                            proof {
                                assert(views_of(out@) =~= oldout + seq![pxv]);
                                assert(expand_block(sj).0 =~= seq![pxv] + rest.0);
                                assert(expand_block(sj).1 == rest.1);
                                assert(oldout + (seq![pxv] + rest.0) =~= (oldout + seq![pxv])
                                    + rest.0);
                            }
                        } else {
                            let w = Warning { span: h };
                            let ghost oldw = warns@;
                            warns.push(w);
                            proof {
                                assert(expand_block(sj).0 == rest.0);
                                assert(expand_block(sj).1 =~= seq![w] + rest.1);
                                assert(oldw + (seq![w] + rest.1) =~= (oldw + seq![w]) + rest.1);
                                assert(warns@ =~= oldw + seq![w]);
                            }
                        }
                    },
                    None => {
                        let w = Warning { span: h };
                        let ghost oldw = warns@;
                        warns.push(w);
                        proof {
                            assert(expand_block(sj).0 == rest.0);
                            assert(expand_block(sj).1 =~= seq![w] + rest.1);
                            assert(oldw + (seq![w] + rest.1) =~= (oldw + seq![w]) + rest.1);
                            assert(warns@ =~= oldw + seq![w]);
                        }
                    },
                }
                i = e;
            },
        }
    }
    proof {
        assert(iv.skip(inner@.len() as int) =~= Seq::<STok>::empty());
        assert(expand_block(Seq::<STok>::empty()).0 =~= Seq::<SOutItem>::empty());
        assert(views_of(out@) + Seq::<SOutItem>::empty() =~= views_of(out@));
        assert(warns@ + Seq::<Warning>::empty() =~= warns@);
    }
    (out, warns)
}

/// Classifies and expands one item.
fn expand_item_exec(item: Vec<Tok>, imports: &Vec<ImportEntry>) -> (r: (
    Result<Vec<OutItem>, ParseError>,
    Vec<Warning>,
))
    ensures
        result_view(r.0) == expand_item(toks_view(item@), views_of(imports@)).0,
        r.1@ == expand_item(toks_view(item@), views_of(imports@)).1,
{
    let ghost itemv = toks_view(item@);
    let ghost importsv = views_of(imports@);
    proof {
        crate::token::lemma_toks_view_len(item@);
        assert(itemv.skip(0) =~= itemv);
    }
    let a = scan_attrs(&item, 0);
    let pay = slice_toks(&item, a, item.len());
    proof {
        assert(itemv.subrange(a as int, itemv.len() as int) =~= itemv.skip(a as int));
    }
    let mp = macro_parts_exec(&pay);
    let is_import = match &mp {
        Some(t) => str_eq(&t.0, "hot_functions_from_file"),
        None => false,
    };
    if is_import {
        let (_name, minner, gsp) = match mp {
            Some(t) => t,
            None => (String::new(), Vec::new(), Span { lo: 0, hi: 0 }),
        };
        let arg_is_lit = minner.len() == 1 && (match &minner[0] {
            Tok::LitStr(_, _) => true,
            _ => false,
        });
        if arg_is_lit {
            let (path, psp) = match &minner[0] {
                Tok::LitStr(s, sp) => (s.clone(), *sp),
                _ => (String::new(), Span { lo: 0, hi: 0 }),
            };
            match lookup_import_exec(imports, &path) {
                Some(Some(sigs)) => {
                    let ghost sigsv = views_of(sigs@);
                    let mut out: Vec<OutItem> = Vec::new();
                    let mut k: usize = 0;
                    while k < sigs.len()
                        invariant
                            k <= sigs.len(),
                            sigsv == views_of(sigs@),
                            sigsv.len() == sigs@.len(),
                            out@.len() == k,
                            forall|q: int|
                                0 <= q < k as int ==> #[trigger] out@[q]@ == SOutItem::Proxy(
                                    lower_sig(sigsv[q]),
                                ),
                        decreases sigs.len() - k,
                    {
                        proof {
                            lemma_views_of_index(sigs@, k as int);
                        }
                        out.push(OutItem::Proxy(lower(sigs[k].clone())));
                        k += 1;
                    }
                    proof {
                        assert(views_of(out@) =~= sigsv.map(
                            |q: int, s: SFnSig| SOutItem::Proxy(lower_sig(s)),
                        ));
                    }
                    (Ok(out), Vec::new())
                },
                Some(None) => (
                    Err(ParseError { kind: ParseErrorKind::ExtractionFailed, span: psp }),
                    Vec::new(),
                ),
                None => (
                    Err(ParseError { kind: ParseErrorKind::ExtractionFailed, span: psp }),
                    Vec::new(),
                ),
            }
        } else {
            (Err(ParseError { kind: ParseErrorKind::MalformedImportArg, span: gsp }), Vec::new())
        }
    } else if has_attr_at(&item, 0, "hot_function") && ({
        let (_, vl) = parse_vis_at(&pay, 0);
        proof {
            assert(toks_view(pay@).skip(0) =~= toks_view(pay@));
        }
        vl < pay.len() && tok_is_ident(&pay[vl], "fn")
    }) {
        let h = hull_at(&item, 0);
        match parse_sig_exec(&pay) {
            Some(p) => {
                if p.end_body {
                    let sig = FnSig {
                        vis: p.vis,
                        name: p.name,
                        params: p.params,
                        ret: p.ret,
                        span: h,
                    };
                    let mut out: Vec<OutItem> = Vec::new();
                    out.push(OutItem::Proxy(lower(sig)));
                    proof {
                        assert(views_of(out@) =~= seq![out@[0]@]);
                    }
                    (Ok(out), Vec::new())
                } else {
                    (Err(ParseError { kind: ParseErrorKind::BadItem, span: h }), Vec::new())
                }
            },
            None => (Err(ParseError { kind: ParseErrorKind::BadItem, span: h }), Vec::new()),
        }
    } else if has_attr_at(&item, 0, "hot_functions") && pay.len() >= 2 && tok_is_ident(
        &pay[0],
        "extern",
    ) && tok_is_group(&pay[pay.len() - 1], Delim::Brace) && (pay.len() == 2 || (pay.len() == 3
        && tok_is_lit(&pay[1]))) {
        let ginner = tok_group_toks(&pay[pay.len() - 1]);
        let (out, warns) = expand_block_exec(ginner);
        (Ok(out), warns)
    } else {
        let mut out: Vec<OutItem> = Vec::new();
        out.push(OutItem::Plain(item));
        proof {
            assert(views_of(out@) =~= seq![out@[0]@]);
        }
        (Ok(out), Vec::new())
    }
}

/// Parses and expands every item of a module body, one at a time.
fn parse_items_exec(body: Vec<Tok>, imports: &Vec<ImportEntry>) -> (r: (
    Result<Vec<OutItem>, ParseError>,
    Vec<Warning>,
))
    ensures
        result_view(r.0) == parse_items_spec(toks_view(body@), views_of(imports@)).0,
        r.1@ == parse_items_spec(toks_view(body@), views_of(imports@)).1,
{
    let ghost bv = toks_view(body@);
    let ghost importsv = views_of(imports@);
    let mut out: Vec<OutItem> = Vec::new();
    let mut warns: Vec<Warning> = Vec::new();
    proof {
        crate::token::lemma_toks_view_len(body@);
        assert(bv.skip(0) =~= bv);
        assert(views_of(out@) =~= Seq::<SOutItem>::empty());
        assert(Seq::<SOutItem>::empty() + parse_items_spec(bv, importsv).0->Ok_0
            =~= parse_items_spec(bv, importsv).0->Ok_0);
        assert(Seq::<Warning>::empty() + parse_items_spec(bv, importsv).1 =~= parse_items_spec(
            bv,
            importsv,
        ).1);
    }
    let mut i: usize = 0;
    while i < body.len()
        invariant
            i <= body.len(),
            bv == toks_view(body@),
            bv.len() == body@.len(),
            importsv == views_of(imports@),
            ({
                let full = parse_items_spec(bv, importsv);
                let rest = parse_items_spec(bv.skip(i as int), importsv);
                &&& full.1 == warns@ + rest.1
                &&& full.0 == (match rest.0 {
                    Ok(o) => Ok::<Seq<SOutItem>, ParseError>(views_of(out@) + o),
                    Err(e) => Err::<Seq<SOutItem>, ParseError>(e),
                })
            }),
        decreases body.len() - i,
    {
        let ghost j = i as int;
        let ghost sj = bv.skip(j);
        let ghost full = parse_items_spec(bv, importsv);
        match item_end(&body, i) {
            None => {
                let e = ParseError { kind: ParseErrorKind::BadItem, span: body[i].span() };
                proof {
                    assert(parse_items_spec(sj, importsv).0 == Err::<Seq<SOutItem>, ParseError>(e));
                    assert(parse_items_spec(sj, importsv).1 =~= Seq::<Warning>::empty());
                    assert(warns@ + Seq::<Warning>::empty() =~= warns@);
                }
                return (Err(e), warns);
            },
            Some(e) => {
                let itemvec = slice_toks(&body, i, e);
                proof {
                    assert(sj.subrange(0, e - j) =~= bv.subrange(j, e as int));
                    assert(item_len_c(sj) == e - j);
                    assert(sj.skip(e - j) =~= bv.skip(e as int));
                }
                let ghost first = expand_item(toks_view(itemvec@), importsv);
                let ghost rest2 = parse_items_spec(bv.skip(e as int), importsv);
                let (r1, mut w1) = expand_item_exec(itemvec, imports);
                let ghost oldw = warns@;
                warns.append(&mut w1);
                match r1 {
                    Err(pe) => {
                        proof {
                            assert(parse_items_spec(sj, importsv).0 == Err::<
                                Seq<SOutItem>,
                                ParseError,
                            >(pe));
                            assert(parse_items_spec(sj, importsv).1 == first.1);
                            assert(full.1 =~= warns@);
                        }
                        return (Err(pe), warns);
                    },
                    Ok(mut o1) => {
                        let ghost oldout = views_of(out@);
                        let ghost o1v = views_of(o1@);
                        out.append(&mut o1);
                        proof {
                            assert(views_of(out@) =~= oldout + o1v);
                            assert(first.0 == Ok::<Seq<SOutItem>, ParseError>(o1v));
                            assert(parse_items_spec(sj, importsv).1 == first.1 + rest2.1);
                            assert(oldw + (first.1 + rest2.1) =~= (oldw + first.1) + rest2.1);
                            assert(warns@ =~= oldw + first.1);
                            match rest2.0 {
                                Ok(o2) => {
                                    assert(parse_items_spec(sj, importsv).0 == Ok::<
                                        Seq<SOutItem>,
                                        ParseError,
                                    >(o1v + o2));
                                    assert(oldout + (o1v + o2) =~= (oldout + o1v) + o2);
                                },
                                Err(e2) => {
                                    assert(parse_items_spec(sj, importsv).0 == Err::<
                                        Seq<SOutItem>,
                                        ParseError,
                                    >(e2));
                                },
                            }
                        }
                        i = e;
                    },
                }
            },
        }
    }
    proof {
        assert(bv.skip(body@.len() as int) =~= Seq::<STok>::empty());
        assert(views_of(out@) + Seq::<SOutItem>::empty() =~= views_of(out@));
        assert(warns@ + Seq::<Warning>::empty() =~= warns@);
    }
    (Ok(out), warns)
}

/// The value of an executable module result.
pub open spec fn module_result_view(r: Result<ModuleDecl, ParseError>) -> Result<
    SModuleDecl,
    ParseError,
> {
    match r {
        Ok(m) => Ok(m@),
        Err(e) => Err(e),
    }
}

/// Parses a whole module declaration and expands its body: the module
/// body parser's entry point. Returns the parsed declaration — its
/// configuration not yet attached — or the first fatal error, together
/// with every warning recorded on the way.
pub fn parse_module(toks: &Vec<Tok>, imports: &Vec<ImportEntry>) -> (r: (
    Result<ModuleDecl, ParseError>,
    Vec<Warning>,
))
    ensures
        module_result_view(r.0) == parse_module_spec(toks_view(toks@), views_of(imports@)).0,
        r.1@ == parse_module_spec(toks_view(toks@), views_of(imports@)).1,
{
    let ghost tv = toks_view(toks@);
    proof {
        crate::token::lemma_toks_view_len(toks@);
        assert(tv.skip(0) =~= tv);
    }
    let (vis, v) = parse_vis_at(toks, 0);
    if !(v < toks.len() && tok_is_ident(&toks[v], "mod")) {
        return (
            (
                Err(ParseError { kind: ParseErrorKind::ExpectedMod, span: span_at_exec(toks, v) }),
                Vec::new(),
            )
        );
    }
    if !(v + 1 < toks.len() && tok_is_any_ident(&toks[v + 1])) {
        return (
            (
                Err(
                    ParseError {
                        kind: ParseErrorKind::ExpectedIdent,
                        span: span_at_exec(toks, v + 1),
                    },
                ),
                Vec::new(),
            )
        );
    }
    if !(v + 2 < toks.len() && tok_is_group(&toks[v + 2], Delim::Brace)) {
        return (
            (
                Err(
                    ParseError {
                        kind: ParseErrorKind::ExpectedBody,
                        span: span_at_exec(toks, v + 2),
                    },
                ),
                Vec::new(),
            )
        );
    }
    if v + 3 < toks.len() {
        return (
            (
                Err(
                    ParseError {
                        kind: ParseErrorKind::TrailingTokens,
                        span: span_at_exec(toks, v + 3),
                    },
                ),
                Vec::new(),
            )
        );
    }
    let body = tok_group_toks(&toks[v + 2]);
    let ident = tok_ident_text(&toks[v + 1]);
    let (ir, warns) = parse_items_exec(body, imports);
    match ir {
        Err(e) => (Err(e), warns),
        Ok(items) => (Ok(ModuleDecl { vis, ident, items, source: None }), warns),
    }
}

} // verus!
