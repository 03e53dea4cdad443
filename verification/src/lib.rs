//! A small stack language: a scanner of source text, a pass that gives the
//! block markers of a program their jump targets, and an interpreter.
//!
//! A program is a sequence of [`operation::Operation`]s. The scanner
//! ([`tokenizer::Tokenizer`]) reads them from source text, and
//! [`crossreference::crossreference_operations`] resolves `if` .. `then` ..
//! `else` .. `end` and `while` .. `do` .. `end` into jumps. The interpreter
//! ([`interpreter::Interpreter`]) then executes one operation with each
//! step.
//!
//! The numbers of the language are double-precision values. The library
//! carries them and decides everything else, but it never computes with
//! them: where an operation needs the sum of two numbers, a comparison, a
//! line of input or the text of a number, the step says so, and the host
//! that drives the interpreter provides it.
//!
//! Each executable function is specified by a mathematical model of what it
//! computes: [`tokenizer::tokens`] for the scanner,
//! [`crossreference::crossreference`] for the pass and [`machine::step`] for
//! the interpreter. [`nesting`] proves what the pass does to programs whose
//! blocks are well nested.

pub mod crossreference;
pub mod error;
pub mod interpreter;
pub mod machine;
pub mod nesting;
pub mod object;
pub mod operation;
pub mod text;
pub mod tokenizer;
