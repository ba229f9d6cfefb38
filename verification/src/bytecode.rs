//! The bytecode: how instructions are stored in a chunk, and how they are
//! read back.

pub mod chunk;
pub mod parser;
