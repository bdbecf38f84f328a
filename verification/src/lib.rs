//! yafsh: a stack-based, Forth-like command language that doubles as a shell.
//!
//! This crate is the interpreter. Words work on a stack of values; tokens
//! that are no words are looked up as commands, and what a command prints
//! goes on the stack as an output, which the next command reads.
//!
//! The interpreter is a machine ([`machine`]): its pending work is an
//! explicit stack of tasks that advances one token at a time. It never
//! touches the system. Where a word needs the system, the machine stops
//! with a request ([`host`]) and goes on when it is handed the answer.
//!
//! Every function has a contract over the model of the interpreter state
//! ([`types::StateModel`]). What holds of the engine in general is stated
//! in [`theorems`], and that loops leave no frames behind in [`frames`].

pub mod builtins;
pub mod config;
pub mod eval;
pub mod frames;
pub mod glob;
pub mod highlight;
pub mod host;
pub mod loops;
pub mod machine;
pub mod multiline;
pub mod repl;
pub mod text;
pub mod theorems;
pub mod tokenizer;
pub mod trace;
pub mod types;
