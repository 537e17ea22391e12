//! A schema compiler backend for the Pkl configuration language.
//!
//! The crate turns a graph of named schema types (structs, enums, unions,
//! arrays, maps, primitives, literals and by-name references) into idiomatic
//! Pkl source text: a root module, nested classes, synthesized type aliases,
//! refinement constraints and default values.

pub mod strutil;
pub mod ident;
pub mod schema;
pub mod options;
pub mod imap;
pub mod constraints;
pub mod renderer;
pub mod laws;
pub mod cli;
