//! A small ahead-of-time compiler for a restricted C-like language: a lexer,
//! a Pratt-style precedence parser that resolves local variables to stack
//! offsets while it parses, and a stack-machine code generator that emits
//! x86-64 assembly in Intel syntax. Each stage is verified against a
//! mathematical model of its output: `parse` returns exactly what the spec
//! parser says for every input, and `gen` emits exactly the lines the spec
//! generator describes.

pub mod ast;
pub mod token;
pub mod lex;
pub mod parse;
pub mod codegen;
pub mod laws;
