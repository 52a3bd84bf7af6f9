//! A canonicalizing formatter for a small expression language with emoji keywords.
//!
//! A parser hands over a tree ([`base_ast`]); resolution moves its functions into a
//! table and leaves identifiers behind ([`resolved_ast`], [`resolver`]); rendering
//! writes the one canonical text of the tree ([`formatter`], [`render`]). Parse
//! errors become messages with an excerpt of the source ([`diagnostics`],
//! [`excerpt`]).
//!
//! The contracts are stated over the models in [`model`]: what is rendered, resolved
//! or shown is a function of the model of the input. [`context`] says how the text of
//! a tree is made of the texts of its parts.

pub mod model;
pub mod text;
pub mod paint;
pub mod render;
pub mod context;
pub mod formatter;
pub mod base_ast;
pub mod resolver;
pub mod resolved_ast;
pub mod excerpt;
pub mod diagnostics;
