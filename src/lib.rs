//! Dice rolling for an interactive table-top helper.
//!
//! The library resolves command lines typed by a player into built-in
//! operations (through user-defined aliases and macros), parses dice notation
//! such as `3D6 +1` and rolls it.

pub mod text;
pub mod dice;
pub mod parse;
pub mod result;
pub mod random;
pub mod command;
pub mod registry;
pub mod compiler;
pub mod engine;
pub mod aliases;
pub mod session;
pub mod complete;

pub use engine::Engine;
