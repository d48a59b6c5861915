//! The language: its expressions and how they evaluate, and its reader.

pub mod expr;
pub mod grammar;
pub mod read;
pub mod semantics;
pub mod stream;
pub mod text;
