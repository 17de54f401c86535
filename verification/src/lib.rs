//! Chained navigation over raw memory layouts: the notation, its lowering to
//! elementary pointer operations, and the address-level wrapper those
//! operations are stated against.

pub mod access;
mod emit;
pub mod expand;
pub mod generate;
pub mod grammar;
pub mod helper;
pub mod laws;
pub mod parse;
pub mod program;
pub mod semantics;
pub mod syntax;
pub mod template;
pub mod token;
