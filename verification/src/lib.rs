//! Verified execution engine for a small interactive shell.
//!
//! The library turns one typed command line into a decision: a builtin
//! effect on the shell state, or a pipeline of stages ready to be spawned,
//! each stage with its argument vector and stream wiring. Everything that
//! touches the operating system (spawning, waiting, changing directory,
//! reading input) lives outside the library and acts only on the plain
//! values produced here.

pub mod chars;
pub mod expand;
pub mod pipeline;
pub mod redirect;
pub mod shell;
pub mod tokenize;
pub mod vars;
