//! The data model of the compiler: canonical function signatures (the
//! unification point of the three declaration forms), lowered proxy
//! definitions, module declarations, and the diagnostics they carry.

use vstd::prelude::*;

use crate::token::{toks_view, STok, Span, Tok};

verus! {

/// The value of each element of a sequence, in order.
pub open spec fn views_of<T: View>(s: Seq<T>) -> Seq<T::V> {
    Seq::new(s.len(), |i: int| s[i]@)
}

/// A sequence of values has the length of the sequence it came from.
pub broadcast proof fn lemma_views_of_len<T: View>(s: Seq<T>)
    ensures
        #[trigger] views_of(s).len() == s.len(),
{
}

/// A sequence of values holds, at each index, the value at that index.
pub broadcast proof fn lemma_views_of_index<T: View>(s: Seq<T>, i: int)
    requires
        0 <= i < s.len(),
    ensures
        #[trigger] views_of(s)[i] == s[i]@,
{
}

/// A visibility qualifier: absent, `pub`, or `pub` restricted by the
/// tokens that stood between its parentheses.
#[derive(Debug, PartialEq)]
pub enum Vis {
    Inherited,
    Public,
    Restricted(Vec<Tok>),
}

#[verifier::ext_equal]
pub enum SVis {
    Inherited,
    Public,
    Restricted(Seq<STok>),
}

impl View for Vis {
    type V = SVis;

    open spec fn view(&self) -> SVis {
        match self {
            Vis::Inherited => SVis::Inherited,
            Vis::Public => SVis::Public,
            Vis::Restricted(ts) => SVis::Restricted(toks_view(ts@)),
        }
    }
}

impl Clone for Vis {
    /// Cloning a visibility keeps its value.
    fn clone(&self) -> (r: Vis)
        ensures
            r@ == self@,
    {
        match self {
            Vis::Inherited => Vis::Inherited,
            Vis::Public => Vis::Public,
            Vis::Restricted(ts) => Vis::Restricted(crate::token::clone_toks(ts)),
        }
    }
}

/// One parameter of a canonical signature: its name and the tokens of its
/// type.
#[derive(Debug, PartialEq)]
pub struct Param {
    pub name: String,
    pub ty: Vec<Tok>,
}

#[verifier::ext_equal]
pub struct SParam {
    pub name: Seq<char>,
    pub ty: Seq<STok>,
}

impl View for Param {
    type V = SParam;

    open spec fn view(&self) -> SParam {
        SParam { name: self.name@, ty: toks_view(self.ty@) }
    }
}

impl Clone for Param {
    /// Cloning a parameter keeps its value.
    fn clone(&self) -> (r: Param)
        ensures
            r@ == self@,
    {
        Param { name: self.name.clone(), ty: crate::token::clone_toks(&self.ty) }
    }
}

/// A canonical function signature: the unification point that all three
/// declaration forms reduce to before lowering. The span points back at
/// the declaration the signature came from, for diagnostics.
#[derive(Debug, PartialEq)]
pub struct FnSig {
    pub vis: Vis,
    pub name: String,
    pub params: Vec<Param>,
    pub ret: Option<Vec<Tok>>,
    pub span: Span,
}

#[verifier::ext_equal]
pub struct SFnSig {
    pub vis: SVis,
    pub name: Seq<char>,
    pub params: Seq<SParam>,
    pub ret: Option<Seq<STok>>,
    pub span: Span,
}

impl View for FnSig {
    type V = SFnSig;

    open spec fn view(&self) -> SFnSig {
        SFnSig {
            vis: self.vis@,
            name: self.name@,
            params: views_of(self.params@),
            ret: match &self.ret {
                Some(ts) => Some(toks_view(ts@)),
                None => None,
            },
            span: self.span,
        }
    }
}

/// Clones a parameter list, keeping its value.
pub fn clone_params(ps: &Vec<Param>) -> (r: Vec<Param>)
    ensures
        views_of(r@) == views_of(ps@),
{
    let mut r: Vec<Param> = Vec::new();
    let mut i: usize = 0;
    while i < ps.len()
        invariant
            i <= ps.len(),
            r@.len() == i,
            forall|j: int| 0 <= j < i as int ==> #[trigger] r@[j]@ == ps@[j]@,
        decreases ps.len() - i,
    {
        r.push(ps[i].clone());
        i += 1;
    }
    proof {
        assert forall|j: int| 0 <= j < ps@.len() implies views_of(r@)[j] == views_of(ps@)[j] by {
            lemma_views_of_index(r@, j);
            lemma_views_of_index(ps@, j);
        }
        lemma_views_of_len(r@);
        lemma_views_of_len(ps@);
        assert(views_of(r@) =~= views_of(ps@));
    }
    r
}

impl Clone for FnSig {
    /// Cloning a signature keeps its value.
    fn clone(&self) -> (r: FnSig)
        ensures
            r@ == self@,
    {
        FnSig {
            vis: self.vis.clone(),
            name: self.name.clone(),
            params: clone_params(&self.params),
            ret: match &self.ret {
                Some(ts) => Some(crate::token::clone_toks(ts)),
                None => None,
            },
            span: self.span,
        }
    }
}

/// A generated proxy definition: it keeps the externally visible signature
/// of the canonical signature it was lowered from, and its body forwards
/// the call. `symbol` is the exported name resolved in the backing library
/// (the signature's own name, verbatim), and `arg_names` are the arguments
/// forwarded, in declaration order.
#[derive(Debug, PartialEq)]
pub struct ProxyFn {
    pub sig: FnSig,
    pub symbol: String,
    pub arg_names: Vec<String>,
}

#[verifier::ext_equal]
pub struct SProxyFn {
    pub sig: SFnSig,
    pub symbol: Seq<char>,
    pub arg_names: Seq<Seq<char>>,
}

impl View for ProxyFn {
    type V = SProxyFn;

    open spec fn view(&self) -> SProxyFn {
        SProxyFn { sig: self.sig@, symbol: self.symbol@, arg_names: views_of(self.arg_names@) }
    }
}

/// One item of the generated module body: either an ordinary item passed
/// through untouched as its original tokens, or a generated proxy.
#[derive(Debug, PartialEq)]
pub enum OutItem {
    Plain(Vec<Tok>),
    Proxy(ProxyFn),
}

#[verifier::ext_equal]
pub enum SOutItem {
    Plain(Seq<STok>),
    Proxy(SProxyFn),
}

impl View for OutItem {
    type V = SOutItem;

    open spec fn view(&self) -> SOutItem {
        match self {
            OutItem::Plain(ts) => SOutItem::Plain(toks_view(ts@)),
            OutItem::Proxy(p) => SOutItem::Proxy(p@),
        }
    }
}

/// The configuration the loader scaffolding is generated from: the logical
/// name of the backing library and the directory it is searched in.
#[derive(Debug, PartialEq)]
pub struct DeclSource {
    pub lib_name: String,
    pub lib_dir: String,
}

#[verifier::ext_equal]
pub struct SDeclSource {
    pub lib_name: Seq<char>,
    pub lib_dir: Seq<char>,
}

impl View for DeclSource {
    type V = SDeclSource;

    open spec fn view(&self) -> SDeclSource {
        SDeclSource { lib_name: self.lib_name@, lib_dir: self.lib_dir@ }
    }
}

impl Clone for DeclSource {
    /// Cloning a configuration keeps its value.
    fn clone(&self) -> (r: DeclSource)
        ensures
            r@ == self@,
    {
        DeclSource { lib_name: self.lib_name.clone(), lib_dir: self.lib_dir.clone() }
    }
}

/// A parsed module declaration. The configuration arrives on a separate
/// channel after parsing, so it starts out absent and is attached in a
/// second phase; assembly refuses a declaration that never received it.
#[derive(Debug, PartialEq)]
pub struct ModuleDecl {
    pub vis: Vis,
    pub ident: String,
    pub items: Vec<OutItem>,
    pub source: Option<DeclSource>,
}

#[verifier::ext_equal]
pub struct SModuleDecl {
    pub vis: SVis,
    pub ident: Seq<char>,
    pub items: Seq<SOutItem>,
    pub source: Option<SDeclSource>,
}

impl View for ModuleDecl {
    type V = SModuleDecl;

    open spec fn view(&self) -> SModuleDecl {
        SModuleDecl {
            vis: self.vis@,
            ident: self.ident@,
            items: views_of(self.items@),
            source: match &self.source {
                Some(s) => Some(s@),
                None => None,
            },
        }
    }
}

impl ModuleDecl {
    /// Attaches the configuration to a parsed declaration: the second
    /// phase of construction, after which assembly may run.
    pub fn attach_source(&mut self, source: DeclSource)
        ensures
            final(self).vis == old(self).vis,
            final(self).ident == old(self).ident,
            final(self).items == old(self).items,
            final(self)@.source == Some(source@),
    {
        self.source = Some(source);
    }
}

/// Where a structural parse failure was detected.
#[derive(Clone, Copy, PartialEq, Eq, Structural, Debug)]
pub enum ParseErrorKind {
    /// The module keyword was missing where it was required.
    ExpectedMod,
    /// The module name was missing after the module keyword.
    ExpectedIdent,
    /// The brace-delimited module body was missing or unterminated.
    ExpectedBody,
    /// Tokens remained after the module body.
    TrailingTokens,
    /// An item could not be parsed as a generic item, or a tagged function
    /// carried a malformed signature.
    BadItem,
    /// The argument of a file-import directive was not a single string
    /// literal.
    MalformedImportArg,
    /// The signature extractor failed on the named source.
    ExtractionFailed,
}

/// A fatal structural parse error, anchored to the offending tokens.
#[derive(Clone, Copy, PartialEq, Eq, Structural, Debug)]
pub struct ParseError {
    pub kind: ParseErrorKind,
    pub span: Span,
}

/// A recoverable diagnostic: an unexpected item inside a tagged signature
/// block. It is recorded and the item is skipped.
#[derive(Clone, Copy, PartialEq, Eq, Structural, Debug)]
pub struct Warning {
    pub span: Span,
}

/// Why scaffolding generation refused its configuration.
#[derive(Clone, Copy, PartialEq, Eq, Structural, Debug)]
pub enum ScaffoldError {
    /// The library's logical name is not a plain identifier.
    BadLibName,
    /// The library search directory is empty.
    BadLibDir,
}

/// Why assembly aborted.
#[derive(Clone, Copy, PartialEq, Eq, Structural, Debug)]
pub enum AssembleError {
    /// No configuration was ever attached to the declaration.
    MissingDeclarationSource,
    /// Scaffolding generation failed.
    Scaffold(ScaffoldError),
}

} // verus!
