//! Rewrites ES module syntax (`import` and `export` declarations) into a
//! CommonJS-style wrapper, on top of the `esparse` lexer.
pub mod error;
pub mod lexer;
pub mod text;
pub mod decl;
pub mod syntax;
mod cursor;
pub mod es6;
pub mod cjs;
pub mod laws;
pub mod outcomes;
