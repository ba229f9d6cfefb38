//! The execution core of a small scripting-language runtime: a compact
//! bytecode format, its decoder, a stack machine, and the scanner of the
//! language's source text.

pub mod bytecode;
pub mod compiler;
pub mod dissembler;
pub mod text;
pub mod value;
pub mod vm;
