//! A verified core of a small Lisp interpreter: reader, macro expander,
//! evaluator, and the primitive operators, over a value model in which
//! floating-point numbers are carried as IEEE-754 bit patterns.
pub mod expression;
pub mod exception;
pub mod operator;
pub mod numerics;
pub mod floatfmt;
pub mod text;
pub mod environment;
pub mod parser;
pub mod macro_expander;
pub mod evaluator;
pub mod laws;
pub mod arithmetic;
pub mod comparison;
pub mod control;
pub mod lambda;
pub mod list;
pub mod setf;
