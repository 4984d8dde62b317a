//! Stability-aware symbol resolution.
//!
//! The library builds a versioned symbol tree from a standard library's
//! declarations together with its import and re-export graph, resolves
//! qualified paths through that graph back to the declaration that fixes
//! their stabilization version, walks a package's syntax tree to count
//! expressions, unsafe expressions and per-version references, and turns
//! the raw counts into report-ready values.

pub mod ast;
pub mod builder;
pub mod index;
pub mod resolve;
pub mod snapshot;
pub mod stats;
pub mod walker;

pub use index::Alias;
pub use index::LocalAlias;
pub use index::VersionConstructor;
pub use index::VersionedItem;
