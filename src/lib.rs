//! A SECD virtual machine with a small Scheme front end: cons lists of
//! cells, a step function over the four registers, a driver, a parser from
//! source text to expressions, and a compiler from expressions to machine
//! code.

pub mod cell;
pub mod error;
pub mod svm;
pub mod laws;
pub mod ast;
pub mod parser;
pub mod compiler;
pub mod driver;
