//! A compiler for a tiny subset of C, targeting x86-64 System V assembly.
//!
//! The pipeline is: lexing (`lexer`), recursive-descent parsing (`parser`),
//! lowering to a three-address intermediate representation (`tackygen`),
//! generation of abstract assembly with two fixup passes (`codegen`), and
//! emission of GNU/AT&T assembly text (`emit`). Each stage carries a contract
//! relating its output to a specification-level model of the transformation.

pub mod ast_nodes;
pub mod codegen;
pub mod compiler_driver;
pub mod emit;
pub mod lexer;
pub mod numerals;
pub mod parser;
pub mod tackygen;
