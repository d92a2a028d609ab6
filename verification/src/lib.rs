//! A project-scaffolding engine.
//!
//! Given a template — a directory tree holding a manifest plus files with
//! embedded placeholders — the library collects a set of named variables
//! from defaults or from a caller, then plans a concrete project: it
//! interprets the manifest, resolves variables in declaration order while
//! honouring conditional visibility, and decides for every entry of the
//! template tree how it must appear in the output.  All I/O (walking the
//! tree, reading and writing files, running hooks) is left to the caller;
//! the decisions themselves are verified here.

pub mod definition;
pub mod engine;
pub mod errors;
pub mod generation;
pub mod interpret;
pub mod text;
pub mod utils;
pub mod validate;
pub mod value;
pub mod varmap;

pub use definition::{Cleanup, Condition, Hook, TemplateDefinition, Variable};
pub use generation::{HookFile, Template};
pub use value::Value;
