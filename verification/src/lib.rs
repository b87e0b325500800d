//! Runtime core of the fern shell: expansion of raw tokens into words, the
//! arithmetic evaluator, and the execution engine that decides, step by step,
//! which operating-system action a parsed command tree asks for next.

pub mod text;
pub mod builtin;
pub mod error;
pub mod execute;
pub mod expand;
pub mod jobs;
pub mod lex;
pub mod parse;
pub mod prompt;
pub mod runtime;
pub mod shellenv;
pub mod table;
