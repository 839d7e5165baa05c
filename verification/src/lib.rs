//! A compiler front end for a small interface-definition language:
//! parsing into an abstract syntax tree, semantic validation, canonical
//! re-rendering, and generation of target-language bindings.

pub mod assemble;
pub mod ast;
pub mod generate;
pub mod grammar;
pub mod keyed;
pub mod names;
pub mod parse;
pub mod render;
pub mod text;
