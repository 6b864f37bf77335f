//! A small flow-oriented scripting language: tokenizer, parser, compiler to
//! bytecode, and a stack machine that runs it.

pub mod compiler;
pub mod execute;
pub mod lexer;
pub mod node;
pub mod parser;
pub mod procedure;
pub mod program;
pub mod random;
pub mod reduce;
pub mod run;
pub mod text;
pub mod value;
pub mod vm;
