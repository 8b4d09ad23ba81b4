//! A small shell's command-line core: a character-level tokenizer that turns a
//! raw input line into a tagged token sequence, splitters that partition the
//! tokens into command groups on sentinel tokens (`|`, `&&`, `;`), home-path
//! expansion, the session context (alias table, configuration, history path),
//! and the decision logic of the process executor (shape dispatch, pipeline
//! stage roles, chain short-circuiting).
//!
//! Everything here is pure computation on plain values; reading lines,
//! spawning processes and touching the file system is left to the host
//! program.

pub mod builtins;
pub mod config;
pub mod context;
pub mod laws;
pub mod parser;
pub mod paths;
pub mod spawn;
pub mod strutil;
