//! A small command interpreter core: tokenizing a command line, the table of
//! builtin commands, resolving a command name along a search path, and the
//! dispatcher that turns one input line into the action to perform.

pub mod words;
pub mod number;
pub mod builtins;
pub mod search;
pub mod dispatch;
pub mod report;
pub mod laws;
