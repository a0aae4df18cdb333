//! The laws the compiler obeys, stated once for all inputs and proved
//! against the specification functions that the executable code is held
//! to.

use vstd::prelude::*;

use crate::ast::{AssembleError, SFnSig, SModuleDecl, SOutItem};
use crate::gen::{assemble_spec, gen_scaffold_spec, SOutputModule};
use crate::parse::{
    attrs_len, classify, expand_block, expand_item, item_len, item_len_c, lower_sig, parse_sig,
    parse_items_spec, SClass, SImportEntry,
};
use crate::token::STok;

verus! {

/// Lowering preserves the externally visible signature exactly: the proxy
/// keeps the name, visibility, parameters and return type of the
/// canonical signature it was derived from; the symbol it resolves is the
/// signature's own name, verbatim; and the forwarded arguments are the
/// parameters, in declaration order.
pub proof fn lemma_lowering_preserves_signature(sig: SFnSig)
    ensures
        lower_sig(sig).sig == sig,
        lower_sig(sig).symbol == sig.name,
        lower_sig(sig).arg_names.len() == sig.params.len(),
        forall|k: int|
            0 <= k < sig.params.len() ==> lower_sig(sig).arg_names[k] == sig.params[k].name,
{
}

/// Every proxy that a block-tagged group expands to is the lowering of
/// its own signature.
proof fn lemma_block_proxies_are_lowered(inner: Seq<STok>)
    ensures
        forall|q: int|
            0 <= q < expand_block(inner).0.len() && #[trigger] expand_block(inner).0[q] is Proxy
                ==> expand_block(inner).0[q]->Proxy_0 == lower_sig(
                expand_block(inner).0[q]->Proxy_0.sig,
            ),
    decreases inner.len(),
{
    if inner.len() == 0 {
    } else if item_len(inner) is None {
    } else {
        let k = item_len_c(inner);
        lemma_block_proxies_are_lowered(inner.skip(k));
    }
}

/// Every proxy that any item expands to — through any of the three
/// declaration forms — is the lowering of its own signature. Together
/// with `lemma_lowering_preserves_signature` this says that the proxies'
/// externally visible signatures are exactly the canonical signatures
/// they were derived from.
pub proof fn lemma_expanded_proxies_keep_their_signatures(
    item: Seq<STok>,
    imports: Seq<SImportEntry>,
)
    ensures
        expand_item(item, imports).0 matches Ok(out) ==> forall|q: int|
            0 <= q < out.len() && #[trigger] out[q] is Proxy ==> out[q]->Proxy_0 == lower_sig(
                out[q]->Proxy_0.sig,
            ),
{
    let payload = item.skip(attrs_len(item));
    match classify(item) {
        SClass::BlockTagged => {
            lemma_block_proxies_are_lowered(crate::parse::group_toks(
                payload[payload.len() - 1],
            ));
        },
        _ => {},
    }
}

/// An item that matches none of the three recognized forms passes through
/// with zero structural modification — its output is exactly its own
/// tokens — and without any diagnostic.
pub proof fn lemma_plain_item_passes_through(item: Seq<STok>, imports: Seq<SImportEntry>)
    requires
        classify(item) is Plain,
    ensures
        expand_item(item, imports).0 == Ok::<Seq<SOutItem>, crate::ast::ParseError>(
            seq![SOutItem::Plain(item)],
        ),
        expand_item(item, imports).1 == Seq::<crate::ast::Warning>::empty(),
{
}

/// The items a body splits into: each is one whole item, in encounter
/// order; `None` when some stretch is no item.
pub open spec fn split_items(toks: Seq<STok>) -> Option<Seq<Seq<STok>>>
    decreases toks.len(),
{
    if toks.len() == 0 {
        Some(Seq::empty())
    } else if item_len(toks) is None {
        None
    } else {
        let k = item_len_c(toks);
        match split_items(toks.skip(k)) {
            None => None,
            Some(r) => Some(seq![toks.subrange(0, k)] + r),
        }
    }
}

/// What one item contributes to the output on the success path.
pub open spec fn expansion_of(seg: Seq<STok>, imports: Seq<SImportEntry>) -> Seq<SOutItem> {
    match expand_item(seg, imports).0 {
        Ok(o) => o,
        Err(_) => Seq::empty(),
    }
}

/// The expansions of every item, concatenated in encounter order.
pub open spec fn concat_expansions(segs: Seq<Seq<STok>>, imports: Seq<SImportEntry>) -> Seq<
    SOutItem,
>
    decreases segs.len(),
{
    if segs.len() == 0 {
        Seq::empty()
    } else {
        expansion_of(segs[0], imports) + concat_expansions(segs.skip(1), imports)
    }
}

/// Output ordering is stable: a successfully parsed body is exactly the
/// concatenation, in encounter order, of each item's own expansion,
/// inlined at the point the item stood. Since parsing is a function of
/// its input alone, re-running it on the same input yields the identical
/// item ordering.
pub proof fn lemma_output_is_inlined_expansions(toks: Seq<STok>, imports: Seq<SImportEntry>)
    ensures
        parse_items_spec(toks, imports).0 matches Ok(out) ==> split_items(toks) matches Some(segs)
            && out == concat_expansions(segs, imports),
    decreases toks.len(),
{
    if toks.len() == 0 {
        assert(parse_items_spec(toks, imports).0 == Ok::<
            Seq<SOutItem>,
            crate::ast::ParseError,
        >(Seq::empty()));
        assert(split_items(toks) == Some(Seq::<Seq<STok>>::empty()));
    } else if item_len(toks) is None {
    } else {
        let k = item_len_c(toks);
        let first = expand_item(toks.subrange(0, k), imports);
        lemma_output_is_inlined_expansions(toks.skip(k), imports);
        if first.0 is Ok && parse_items_spec(toks.skip(k), imports).0 is Ok {
            let out1 = first.0->Ok_0;
            let out2 = parse_items_spec(toks.skip(k), imports).0->Ok_0;
            let segs_rest = split_items(toks.skip(k))->Some_0;
            let segs = seq![toks.subrange(0, k)] + segs_rest;
            assert(segs[0] == toks.subrange(0, k));
            assert(segs.skip(1) =~= segs_rest);
            assert(concat_expansions(segs, imports) == expansion_of(toks.subrange(0, k), imports)
                + concat_expansions(segs_rest, imports));
        }
    }
}

/// Assembly never emits a module that misses its loader scaffolding: a
/// declaration without an attached configuration is refused outright, and
/// a successfully assembled module carries the scaffolding generated from
/// the attached configuration, with the body items unchanged before it.
pub proof fn lemma_assembly_requires_source(m: SModuleDecl)
    ensures
        m.source is None ==> assemble_spec(m) == Err::<SOutputModule, AssembleError>(
            AssembleError::MissingDeclarationSource,
        ),
        assemble_spec(m) matches Ok(o) ==> m.source matches Some(src) && gen_scaffold_spec(src)
            == Ok::<crate::gen::SScaffold, crate::ast::ScaffoldError>(o.scaffold) && o.items
            == m.items && o.vis == m.vis && o.ident == m.ident,
{
}

/// Parsing is the first construction phase only: a declaration it returns
/// never carries a configuration yet, so assembly cannot run before the
/// configuration is attached in the second phase.
pub proof fn lemma_parser_attaches_no_source(toks: Seq<STok>, imports: Seq<SImportEntry>)
    ensures
        crate::parse::parse_module_spec(toks, imports).0 matches Ok(m) ==> m.source is None,
{
}

/// How many entries of a block-tagged group are well-formed signatures.
pub open spec fn count_sig_entries(segs: Seq<Seq<STok>>) -> int
    decreases segs.len(),
{
    if segs.len() == 0 {
        0
    } else {
        (if entry_is_sig(segs[0]) {
            1int
        } else {
            0int
        }) + count_sig_entries(segs.skip(1))
    }
}

/// The entry is a signature: it parses as a function declaration ending
/// in a semicolon rather than a body.
pub open spec fn entry_is_sig(seg: Seq<STok>) -> bool {
    parse_sig(seg.skip(attrs_len(seg))) matches Some(p) && !p.end_body
}

/// Inside a block-tagged group whose contents split into entries, every
/// signature entry yields exactly one proxy and every other entry is
/// skipped with exactly one warning: as many proxies as signatures, as
/// many warnings as remaining entries.
pub proof fn lemma_block_group_accounts_for_every_entry(inner: Seq<STok>)
    requires
        split_items(inner) is Some,
    ensures
        expand_block(inner).0.len() == count_sig_entries(split_items(inner)->Some_0),
        expand_block(inner).1.len() == split_items(inner)->Some_0.len() - count_sig_entries(
            split_items(inner)->Some_0,
        ),
    decreases inner.len(),
{
    if inner.len() == 0 {
    } else {
        let k = item_len_c(inner);
        lemma_block_group_accounts_for_every_entry(inner.skip(k));
        let segs = split_items(inner)->Some_0;
        let segs_rest = split_items(inner.skip(k))->Some_0;
        assert(segs[0] == inner.subrange(0, k));
        assert(segs.skip(1) =~= segs_rest);
    }
}

} // verus!
