//! An interactive command-line shell core: quote-aware tokenizing, environment
//! variable expansion, cycle-safe alias resolution, command classification and
//! dispatch against per-session state.
//!
//! The modules in this crate do no I/O themselves: each line of input is turned
//! into a value describing the side effect the surrounding program must
//! perform (print these lines, change directory, spawn this process, exit),
//! while session state (environment variables and aliases) is mutated here.

pub mod alias;
pub mod builtin;
pub mod color;
pub mod command;
pub mod executor;
pub mod helpers;
pub mod parser;
pub mod repl;
pub mod shell;
pub mod shellcommand;
pub mod strmap;
pub mod strutil;
