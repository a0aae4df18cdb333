//! Loader scaffolding generation and module assembly: the support
//! definitions every proxy relies on, and the final module that holds the
//! expanded body items followed by that scaffolding.

use vstd::prelude::*;

use crate::ast::{
    views_of, AssembleError, DeclSource, ModuleDecl, OutItem, ParseError, SDeclSource,
    ScaffoldError, SModuleDecl, SOutItem, SVis, Vis, Warning,
};
use crate::parse::{parse_module, ImportEntry, SImportEntry};
use crate::token::{toks_view, Tok};

verus! {

/// A character that may open an identifier.
pub open spec fn is_ident_start(c: char) -> bool {
    ('a' <= c && c <= 'z') || ('A' <= c && c <= 'Z') || c == '_'
}

/// A character that may continue an identifier.
pub open spec fn is_ident_char(c: char) -> bool {
    is_ident_start(c) || ('0' <= c && c <= '9')
}

/// The text is a plain identifier: nonempty, opening with a letter or an
/// underscore, continuing with letters, digits or underscores.
pub open spec fn valid_ident(s: Seq<char>) -> bool {
    s.len() > 0 && is_ident_start(s[0]) && (forall|i: int|
        1 <= i < s.len() ==> is_ident_char(#[trigger] s[i]))
}

/// Decides whether the text is a plain identifier.
pub fn check_ident(s: &String) -> (r: bool)
    ensures
        r == valid_ident(s@),
{
    let n = s.unicode_len();
    if n == 0 {
        return false;
    }
    if !{
        let c = s.get_char(0);
        (('a' <= c && c <= 'z') || ('A' <= c && c <= 'Z') || c == '_')
    } {
        return false;
    }
    let mut i: usize = 1;
    while i < n
        invariant
            1 <= i <= n,
            n == s@.len(),
            is_ident_start(s@[0]),
            forall|j: int| 1 <= j < i as int ==> is_ident_char(#[trigger] s@[j]),
        decreases n - i,
    {
        let c = s.get_char(i);
        if !(('a' <= c && c <= 'z') || ('A' <= c && c <= 'Z') || c == '_' || ('0' <= c && c
            <= '9')) {
            return false;
        }
        i += 1;
    }
    true
}

/// The generated loader scaffolding: the fixed set of support definitions
/// shared by every proxy of the module, parameterized by the declaration's
/// configuration. The three names are the entry points the rendered module
/// exposes: the accessor that fetches the current backing implementation —
/// fetched anew at every proxy call, never cached across calls — and the
/// reload-triggering glue handed through to the runtime loader.
#[derive(Debug, PartialEq)]
pub struct Scaffold {
    pub source: DeclSource,
    pub handle_fn: String,
    pub reload_fn: String,
    pub updated_fn: String,
}

#[verifier::ext_equal]
pub struct SScaffold {
    pub source: SDeclSource,
    pub handle_fn: Seq<char>,
    pub reload_fn: Seq<char>,
    pub updated_fn: Seq<char>,
}

impl View for Scaffold {
    type V = SScaffold;

    open spec fn view(&self) -> SScaffold {
        SScaffold {
            source: self.source@,
            handle_fn: self.handle_fn@,
            reload_fn: self.reload_fn@,
            updated_fn: self.updated_fn@,
        }
    }
}

/// The name of the generated handle accessor.
pub open spec fn handle_fn_name() -> Seq<char> {
    "lib_loader_handle"@
}

/// The name of the generated reload trigger.
pub open spec fn reload_fn_name() -> Seq<char> {
    "force_library_reload"@
}

/// The name of the generated update probe.
pub open spec fn updated_fn_name() -> Seq<char> {
    "library_was_updated"@
}

/// What scaffolding generation produces: the fixed definitions for a
/// well-formed configuration, and a fatal refusal for a logical name that
/// is no identifier or an empty search directory. There is no partial
/// output.
pub open spec fn gen_scaffold_spec(src: SDeclSource) -> Result<SScaffold, ScaffoldError> {
    if !valid_ident(src.lib_name) {
        Err(ScaffoldError::BadLibName)
    } else if src.lib_dir.len() == 0 {
        Err(ScaffoldError::BadLibDir)
    } else {
        Ok(
            SScaffold {
                source: src,
                handle_fn: handle_fn_name(),
                reload_fn: reload_fn_name(),
                updated_fn: updated_fn_name(),
            },
        )
    }
}

/// Generates the loader scaffolding for a configuration: success if and
/// only if the logical name is a plain identifier and the search
/// directory is nonempty.
pub fn gen_scaffold(source: DeclSource) -> (r: Result<Scaffold, ScaffoldError>)
    ensures
        match r {
            Ok(sc) => gen_scaffold_spec(source@) == Ok::<SScaffold, ScaffoldError>(sc@),
            Err(e) => gen_scaffold_spec(source@) == Err::<SScaffold, ScaffoldError>(e),
        },
{
    broadcast use vstd::string::to_string_from_display_ensures_for_str;

    if !check_ident(&source.lib_name) {
        return Err(ScaffoldError::BadLibName);
    }
    if source.lib_dir.unicode_len() == 0 {
        return Err(ScaffoldError::BadLibDir);
    }
    let sc = Scaffold {
        source,
        handle_fn: "lib_loader_handle".to_string(),
        reload_fn: "force_library_reload".to_string(),
        updated_fn: "library_was_updated".to_string(),
    };
    proof {
        assert(sc@ =~= gen_scaffold_spec(sc.source@)->Ok_0);
    }
    Ok(sc)
}

/// The assembled output module: the original visibility and name, the
/// parsed and lowered body items in encounter order, and the loader
/// scaffolding after them. The renderer emits the two parts in exactly
/// that fixed order.
#[derive(Debug, PartialEq)]
pub struct OutputModule {
    pub vis: Vis,
    pub ident: String,
    pub items: Vec<OutItem>,
    pub scaffold: Scaffold,
}

#[verifier::ext_equal]
pub struct SOutputModule {
    pub vis: SVis,
    pub ident: Seq<char>,
    pub items: Seq<SOutItem>,
    pub scaffold: SScaffold,
}

impl View for OutputModule {
    type V = SOutputModule;

    open spec fn view(&self) -> SOutputModule {
        SOutputModule {
            vis: self.vis@,
            ident: self.ident@,
            items: views_of(self.items@),
            scaffold: self.scaffold@,
        }
    }
}

/// What assembly produces: a declaration that never received its
/// configuration is refused outright — no module without scaffolding is
/// ever emitted — and a configuration the scaffolding generator refuses
/// aborts assembly with that refusal.
pub open spec fn assemble_spec(m: SModuleDecl) -> Result<SOutputModule, AssembleError> {
    match m.source {
        None => Err(AssembleError::MissingDeclarationSource),
        Some(src) => match gen_scaffold_spec(src) {
            Err(e) => Err(AssembleError::Scaffold(e)),
            Ok(sc) => Ok(
                SOutputModule { vis: m.vis, ident: m.ident, items: m.items, scaffold: sc },
            ),
        },
    }
}

/// Assembles the final module from a parsed declaration: fatal without an
/// attached configuration, fatal on a refused configuration, and
/// otherwise the body items followed by the generated scaffolding, under
/// the declared visibility and name.
pub fn assemble(m: ModuleDecl) -> (r: Result<OutputModule, AssembleError>)
    ensures
        match r {
            Ok(o) => assemble_spec(m@) == Ok::<SOutputModule, AssembleError>(o@),
            Err(e) => assemble_spec(m@) == Err::<SOutputModule, AssembleError>(e),
        },
{
    match m.source {
        None => Err(AssembleError::MissingDeclarationSource),
        Some(src) => match gen_scaffold(src) {
            Err(e) => Err(AssembleError::Scaffold(e)),
            Ok(sc) => {
                let o = OutputModule { vis: m.vis, ident: m.ident, items: m.items, scaffold: sc };
                proof {
                    assert(o@ =~= assemble_spec(
                        SModuleDecl {
                            vis: o.vis@,
                            ident: o.ident@,
                            items: views_of(o.items@),
                            source: Some(sc.source@),
                        },
                    )->Ok_0);
                }
                Ok(o)
            },
        },
    }
}

/// Why a whole expansion aborted.
#[derive(Clone, Copy, PartialEq, Eq, Structural, Debug)]
pub enum ExpandError {
    Parse(ParseError),
    Assemble(AssembleError),
}

/// What the whole pass produces for a token stream, the extractor's
/// answers and a configuration: parse, attach the configuration, and
/// assemble. Warnings accumulate across the pass and are reported in
/// either outcome.
pub open spec fn expand_spec(
    toks: Seq<crate::token::STok>,
    imports: Seq<SImportEntry>,
    src: SDeclSource,
) -> (Result<SOutputModule, ExpandError>, Seq<Warning>) {
    let p = crate::parse::parse_module_spec(toks, imports);
    match p.0 {
        Err(e) => (Err(ExpandError::Parse(e)), p.1),
        Ok(m) => match assemble_spec(
            SModuleDecl { vis: m.vis, ident: m.ident, items: m.items, source: Some(src) },
        ) {
            Err(a) => (Err(ExpandError::Assemble(a)), p.1),
            Ok(o) => (Ok(o), p.1),
        },
    }
}

/// Runs the whole pass: parses the module declaration, attaches the
/// configuration in the second construction phase, and assembles the
/// output module. One deterministic pass: identical inputs give the
/// identical module and the identical diagnostics.
pub fn expand(toks: &Vec<Tok>, imports: &Vec<ImportEntry>, source: DeclSource) -> (r: (
    Result<OutputModule, ExpandError>,
    Vec<Warning>,
))
    ensures
        ({
            let s = expand_spec(toks_view(toks@), views_of(imports@), source@);
            &&& (match r.0 {
                Ok(o) => s.0 == Ok::<SOutputModule, ExpandError>(o@),
                Err(e) => s.0 == Err::<SOutputModule, ExpandError>(e),
            })
            &&& r.1@ == s.1
        }),
{
    let (pr, warns) = parse_module(toks, imports);
    match pr {
        Err(e) => (Err(ExpandError::Parse(e)), warns),
        Ok(mut m) => {
            m.attach_source(source);
            match assemble(m) {
                Err(a) => (Err(ExpandError::Assemble(a)), warns),
                Ok(o) => (Ok(o), warns),
            }
        },
    }
}

} // verus!
