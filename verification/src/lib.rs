//! A small scripting language: lexer, recursive-descent parser and
//! tree-walking evaluator with lexically scoped closures.
//!
//! Source text becomes tokens (`lexer`), tokens become a syntax tree
//! (`parser`, after the grammar in `grammar`), and the tree is evaluated
//! (`eval`, after the meaning in `semantics`) on an `environment` of chained
//! scopes, giving a runtime value (`values`) or the error that stopped the
//! run. The host supplies the functions that reach outside the language
//! (`natives`).
//!
//! Everything here is verified against contracts over mathematical models:
//! text is a `Seq<char>`, a list a `Seq`, an object a `Map`, and each data
//! type has a `...View` model that `@` maps it to. `laws` and `progress` hold
//! what follows from the definitions for all inputs.
//!
//! What is believed, not proved:
//! - `number`: arithmetic on doubles and the reading of decimal digits are
//!   done by `rustc_apfloat`; each result has a name, and no more is claimed
//!   than that it depends on the operands alone and that a run of digits can
//!   always be read;
//! - `helpers`: `char::is_alphabetic`, by name, and `String::push`;
//! - `natives`: nothing is assumed of what the host's functions answer; a
//!   host is taken to keep to its own account of itself, which, unless the
//!   host gives one, allows every answer.
pub mod ast;
pub mod duplicate;
pub mod environment;
pub mod eval;
pub mod grammar;
pub mod helpers;
pub mod laws;
pub mod lexer;
pub mod natives;
pub mod number;
pub mod parser;
pub mod progress;
pub mod semantics;
pub mod values;
