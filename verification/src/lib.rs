//! Execution of SQL commands, scripts and interactive sessions.
//!
//! Everything that is decided on the way from a line of text to a printed result is decided here;
//! what is done about it, such as reading lines, running plans and printing, is left to the caller.
//! A run (`ScriptRun`, `Repl`, `QueryRun` and the like) is told what happened and answers what to do
//! next.

pub mod file_type;
pub mod keyword;
pub mod options;
pub mod plan;
pub mod query;
pub mod queue;
pub mod repl;
pub mod script;
pub mod sql;
pub mod statement;
pub mod store;
pub mod text;
