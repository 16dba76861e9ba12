//! A small interactive shell's command-evaluation core: tokenization of an
//! input line under quoting rules, resolution of a command name against a
//! search path, classification into built-ins or external commands, and the
//! decision step that turns a command into the action the driver performs.

pub mod command;
pub mod eval;
pub mod resolve;
pub mod tokenize;
