//! The front end: from source text to tokens.

pub mod scanner;
pub mod syntax_tree;
