//! Core of a lint engine for ECMAScript / TypeScript sources.
//!
//! The library owns the deterministic part of a lint pass: it takes a parsed
//! program (a structural model of the syntax tree together with a text index
//! and the ignore directives found in the file), runs the configured rules in
//! priority order, applies the suppression pipeline (ignore directives,
//! unknown-rule-code detection, unused-ignore detection) and returns the
//! final, ordered diagnostic list.  A separate plugin host lets callers
//! collect additional diagnostics from plugin callbacks through a narrow
//! request/response protocol.
//!
//! Parsing text into the model, file handling and thread wiring live outside
//! the library; every function here is verified.

pub mod ast;
pub mod diagnostic;
pub mod text_index;
pub mod ignore_directives;
pub mod sort;
pub mod context;
pub mod rules;
pub mod linter;
pub mod plugin;
