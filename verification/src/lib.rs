//! Front end and orchestration core of a static-analysis tool for a
//! PHP-like scripting language.
//!
//! The crate turns a pre-lexed token stream into a typed abstract syntax
//! tree with an error-tolerant recursive-descent parser, extracts per-file
//! symbol reflections, merges them into one cross-file codebase model,
//! runs a pluggable rule engine over every file against that model, and
//! aggregates the per-file diagnostics into one ordered, filterable report.
//!
//! Every stage is specified against a mathematical mirror: each executable
//! parser and pipeline stage is proved to return exactly what its spec-level
//! counterpart describes, so determinism and per-file independence are part
//! of the contracts rather than folklore.

pub mod ast;
pub mod issue;
pub mod linter;
pub mod parser;
pub mod pipeline;
pub mod reflect;
pub mod semantics;
pub mod stream;
pub mod token;
