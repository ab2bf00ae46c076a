//! Fleet command execution: the rules by which an ordered list of shell
//! commands is run on every host of a named group, retried, collected and
//! reported. Network and file access live outside this crate; everything here
//! works on plain values.

pub mod attempt;
pub mod config;
pub mod orchestrator;
pub mod output;
pub mod record;
pub mod report;
pub mod session;
pub mod text;
pub mod worker;
