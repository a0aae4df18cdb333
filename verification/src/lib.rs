//! A verified core for a hot-reload module generator: it parses a module
//! body that mixes ordinary items with three ways of declaring functions
//! whose implementation lives in a swappable dynamic library, normalizes
//! all three into one canonical signature model, lowers each signature to
//! a proxy definition that forwards calls to the current library handle,
//! and assembles the result together with loader scaffolding.

pub mod ast;
pub mod gen;
pub mod parse;
pub mod props;
pub mod token;
