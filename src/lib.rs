//! A small supervisor for a fixed set of shell commands: the verified parts
//! are the program records, their environments, the exit classification, the
//! output line framing and formatting, and the completion bookkeeping.
pub mod config;
pub mod program;
pub mod task;
pub mod manager;
pub mod relay;
