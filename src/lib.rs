//! Cross-archive symbol resolution and documentation-model assembly for a
//! class-based scripting language.
//!
//! The semantic tree of each archive comes in as plain values (`model`). From it
//! the library builds one scope-aware symbol table (`symbols`, `item`), resolves
//! dotted identifier chains against it, rebuilds declarations as linked
//! fragments (`signature`) and assembles the render-ready documentation tree
//! (`document`, `builtin`). `links` and `coverage` are what renderers and
//! coverage reports read from that tree; `deps` orders the archives.
pub mod ordering;
pub mod model;
pub mod structures;
pub mod item;
pub mod symbols;
pub mod signature;
pub mod text;
pub mod document;
pub mod builtin;
pub mod links;
pub mod coverage;
pub mod deps;
pub mod laws;
