//! The builtin commands that the engine runs itself.

pub mod alias;
