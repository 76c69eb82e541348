//! Lints for code written against the Bevy game engine, checked over a typed
//! model of the program that the compiler front end hands over.
//!
//! - `ty`, `hir`: the typed program tree, and the matcher that recognises a
//!   framework type by its defining path.
//! - `diagnostic`, `source`: findings, suggested edits, and the source text they quote.
//! - `registry`, `lints`, `callback`: lint levels, the catalog and its groups, and
//!   installing them into a session.
//! - `config`: per-lint configuration from the project manifest.
//! - `dispatch`: one walk per function, fanning out to the registered passes.
//! - `rustup`, `metadata`: what the command-line front reads from `rustup` and Cargo.

pub mod callback;
pub mod config;
pub mod diagnostic;
pub mod dispatch;
pub mod hir;
pub mod lints;
pub mod metadata;
pub mod paths;
pub mod registry;
pub mod rustup;
pub mod source;
pub mod text;
pub mod ty;
