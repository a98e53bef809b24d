//! Front end of a small expression language: text to syntax tree, and syntax
//! tree to the construction calls of a code-generation backend.
//!
//! - [`token`] recognises words, numbers and keywords in a text.
//! - [`parser`] is the grammar: one top-level item per line of input.
//! - [`ast`] holds the syntax tree and the code generator that walks it.
//! - [`lowering`] states what the code generator does.
//! - [`llvm`] is the backend as the code generator sees it: the functions
//!   declared so far, and the construction calls made so far, to be carried
//!   out by whoever drives the real backend.

pub mod ast;
pub mod llvm;
pub mod lowering;
pub mod parser;
pub mod token;
