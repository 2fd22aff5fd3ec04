//! Verified core of a small toolkit of stdin/stdout services: a command
//! parser and process table for a process supervisor, the decisions of a
//! named-pipe helper, and the request bookkeeping of an HTTP bridge.
pub mod command;
pub mod pipes;
pub mod process;
pub mod server;
pub mod text;
