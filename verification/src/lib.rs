//! A small command-line parser.
//!
//! Flags are declared with the number of parameters they take: none, one
//! that may be left out, or one that must be given. The arguments are then
//! read once from left to right: each flag is checked against its
//! declaration and takes the value behind it where it may, and what follows
//! the flags is left over.

pub mod arity;
pub mod error;
pub mod grammar;
pub mod laws;
pub mod model;
pub mod parser;
pub mod table;
pub mod token;

pub use crate::arity::{ArgSpec, ArgType};
pub use crate::error::ParseError;
pub use crate::parser::CLParser;
