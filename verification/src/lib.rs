//! A small stack-based (concatenative) language: the arity analysis of
//! blocks, the scoped runtime environment, a step-wise evaluator and a
//! compiler to C, each stated over mathematical models and proved.

pub mod arity;
pub mod ccode;
pub mod compile_c;
pub mod ctext;
pub mod lexer;
pub mod machine;
pub mod numbers;
pub mod parser;
pub mod pattern;
pub mod render;
pub mod stack;
pub mod store;
pub mod text;
pub mod types;
pub mod vm;
