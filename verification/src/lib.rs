//! A small stack-based, point-free language: the arity discipline that gives
//! every fragment of a program its net stack effect, and the stack machine
//! that runs annotated programs.

pub mod arity;
pub mod word;
pub mod ast;
pub mod infer;
pub mod number;
pub mod text;
pub mod value;
pub mod machine;
pub mod sound;
pub mod eval;
pub mod frame;
pub mod lexer;
pub mod parser;
