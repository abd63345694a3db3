//! A small Lisp: lexer, reader and evaluator, with the evaluator's meaning
//! given as a function on mathematical values and every executable function
//! proved to compute it.

pub mod closure;
pub mod context;
pub mod depth;
pub mod env;
pub mod equality;
pub mod eval;
pub mod expr;
pub mod float;
pub mod frame;
pub mod init;
pub mod laws;
pub mod lexer;
pub mod names;
pub mod reader;
pub mod semantics;
pub mod text;
