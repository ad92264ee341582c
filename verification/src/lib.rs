//! Core of a small interactive shell: tokenizing a command line with
//! quoting rules, parsing tokens into builtin or external commands with
//! redirections, resolving command names against a search path, and the
//! pure decision logic of the builtin dispatcher and the read-eval loop.
//!
//! All I/O (reading lines, touching the filesystem, spawning processes)
//! lives outside this crate; these modules compute, from plain values,
//! exactly what a shell around them must print, store and execute.

pub mod builtins;
pub mod executor;
pub mod lexer;
pub mod parser;
pub mod resolver;
pub mod state;
mod strutil;
