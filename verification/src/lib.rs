//! Expansion of templates of the form `variable in start..end { body }`:
//! the body is written once for each value of the range, with the value in
//! the place of the variable. A name next to the variable, joined to it by
//! `~`, is fused with the value into one identifier. Where the body marks
//! regions with `#( ... )*`, only those are repeated.
//!
//! Everything is stated over the views of the tokens, and the functions
//! are proved against that statement. Three small functions call the
//! outside parser for what only it can say: whether a word may name a
//! variable, and what number a literal stands for. Nothing is claimed of
//! their answers; what is made of each answer is proved.

pub mod decimal;
pub mod error;
pub mod laws;
pub mod scanner;
pub mod splice;
pub mod substitute;
pub mod template;
pub mod token;
