//! The front-to-back pipeline of a tree-walking expression interpreter:
//! a scanner from source text to tokens, a recursive-descent parser from
//! tokens to an expression tree, and an evaluator from a tree to a value.
//!
//! The library is verified with Verus. Three small functions that call `std`
//! are believed and not proved: `text::push_char`, and the two functions in
//! `scanner::rules` that ask `std` for the class of a character.
//!
//! Numbers are carried as IEEE-754 binary64 bit patterns. The library
//! orders, negates and compares them itself, and asks its caller for the
//! operations whose results are rounded.
pub mod interpreter;
pub mod lox;
pub mod number;
pub mod parser;
pub mod scanner;
pub mod text;
