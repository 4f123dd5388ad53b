//! The assembler: lexer and parser for the assembly syntax, the typed
//! AST of sections and instructions, and the evaluator that lowers the
//! AST to microinstruction words with label back-patching.

pub mod evaluator;
pub mod lexer;
pub mod parser;
pub mod sections;
pub mod tokens;

