//! A verified compiler front-end for the toy C-like language D++.
//!
//! The pipeline turns source text into tokens (`lexer`), builds an abstract
//! syntax tree by recursive descent with precedence climbing (`parser`),
//! derives a flat symbol table (`symtab`), checks that every referenced
//! identifier is declared (`semantic`), applies a placeholder optimization
//! pass (`optimizer`), lowers the tree to a stack-machine intermediate
//! representation (`ir`), and emits a naive two-register assembly listing
//! (`codegen`).
//!
//! Every stage is specified against a mathematical model: tokens, tree nodes
//! and instructions each have a spec-level view, and each stage's executable
//! entry point is proved to return exactly the value of the corresponding
//! spec-level function on the view of its input.

pub mod ast;
pub mod codegen;
pub mod ir;
pub mod lexer;
pub mod optimizer;
pub mod parser;
pub mod semantic;
pub mod symtab;
pub mod token;
