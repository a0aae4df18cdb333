//! The token model the compiler works on: a tree of identifiers, punctuation,
//! literals and delimited groups, each carrying a source span for diagnostics.

use vstd::prelude::*;

verus! {

/// A half-open region of the original source, kept on every token and on
/// every diagnostic so that errors and warnings can be anchored.
#[derive(Clone, Copy, PartialEq, Eq, Structural, Debug)]
pub struct Span {
    pub lo: usize,
    pub hi: usize,
}

/// The delimiter of a token group.
#[derive(Clone, Copy, PartialEq, Eq, Structural, Debug)]
pub enum Delim {
    Paren,
    Bracket,
    Brace,
}

/// One token tree: the compiler's whole input is a sequence of these.
#[derive(Debug, PartialEq)]
pub enum Tok {
    /// An identifier or keyword, with its text.
    Ident(String, Span),
    /// A single punctuation character.
    Punct(char, Span),
    /// A string literal, carrying its decoded contents.
    LitStr(String, Span),
    /// Any other literal, carrying its raw text.
    Lit(String, Span),
    /// A delimited group of tokens.
    Group(Delim, Vec<Tok>, Span),
}

/// The mathematical value of a token: strings become character sequences
/// and group contents become sequences of token values.
#[verifier::ext_equal]
pub enum STok {
    Ident(Seq<char>, Span),
    Punct(char, Span),
    LitStr(Seq<char>, Span),
    Lit(Seq<char>, Span),
    Group(Delim, Seq<STok>, Span),
}

impl View for Tok {
    type V = STok;

    open spec fn view(&self) -> STok
        decreases self,
    {
        match self {
            Tok::Ident(s, sp) => STok::Ident(s@, *sp),
            Tok::Punct(c, sp) => STok::Punct(*c, *sp),
            Tok::LitStr(s, sp) => STok::LitStr(s@, *sp),
            Tok::Lit(s, sp) => STok::Lit(s@, *sp),
            Tok::Group(d, ts, sp) => STok::Group(*d, toks_view(ts@), *sp),
        }
    }
}

/// The value of a token sequence, element by element.
pub open spec fn toks_view(ts: Seq<Tok>) -> Seq<STok>
    decreases ts,
{
    Seq::new(
        ts.len(),
        |i: int|
            if 0 <= i < ts.len() {
                ts[i]@
            } else {
                STok::Punct(' ', Span { lo: 0, hi: 0 })
            },
    )
}

/// A token sequence and its value have the same length.
pub broadcast proof fn lemma_toks_view_len(ts: Seq<Tok>)
    ensures
        #[trigger] toks_view(ts).len() == ts.len(),
{
}

/// The value of a token sequence holds, at each index, the value of the
/// token at that index.
pub broadcast proof fn lemma_toks_view_index(ts: Seq<Tok>, i: int)
    requires
        0 <= i < ts.len(),
    ensures
        #[trigger] toks_view(ts)[i] == ts[i]@,
{
}

/// The span a token carries.
pub open spec fn stok_span(t: STok) -> Span {
    match t {
        STok::Ident(_, sp) => sp,
        STok::Punct(_, sp) => sp,
        STok::LitStr(_, sp) => sp,
        STok::Lit(_, sp) => sp,
        STok::Group(_, _, sp) => sp,
    }
}

impl Tok {
    /// The span of this token.
    pub fn span(&self) -> (sp: Span)
        ensures
            sp == stok_span(self@),
    {
        match self {
            Tok::Ident(_, sp) => *sp,
            Tok::Punct(_, sp) => *sp,
            Tok::LitStr(_, sp) => *sp,
            Tok::Lit(_, sp) => *sp,
            Tok::Group(_, _, sp) => *sp,
        }
    }
}

impl Clone for Tok {
    /// Cloning a token keeps its value.
    fn clone(&self) -> (r: Tok)
        ensures
            r@ == self@,
        decreases self,
    {
        match self {
            Tok::Ident(s, sp) => Tok::Ident(s.clone(), *sp),
            Tok::Punct(c, sp) => Tok::Punct(*c, *sp),
            Tok::LitStr(s, sp) => Tok::LitStr(s.clone(), *sp),
            Tok::Lit(s, sp) => Tok::Lit(s.clone(), *sp),
            Tok::Group(d, ts, sp) => Tok::Group(*d, clone_toks(ts), *sp),
        }
    }
}

/// Clones a token list, keeping its value.
pub fn clone_toks(ts: &Vec<Tok>) -> (r: Vec<Tok>)
    ensures
        toks_view(r@) == toks_view(ts@),
    decreases ts,
{
    let mut r: Vec<Tok> = Vec::new();
    let mut i: usize = 0;
    while i < ts.len()
        invariant
            i <= ts.len(),
            r@.len() == i,
            forall|j: int| 0 <= j < i as int ==> #[trigger] r@[j]@ == ts@[j]@,
        decreases ts.len() - i,
    {
        r.push(ts[i].clone());
        i += 1;
    }
    proof {
        assert forall|j: int| 0 <= j < ts@.len() implies toks_view(r@)[j] == toks_view(
            ts@,
        )[j] by {
            lemma_toks_view_index(r@, j);
            lemma_toks_view_index(ts@, j);
        }
        lemma_toks_view_len(r@);
        lemma_toks_view_len(ts@);
        assert(toks_view(r@) =~= toks_view(ts@));
    }
    r
}

} // verus!
