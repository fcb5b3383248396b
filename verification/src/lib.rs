//! A single-writer issue service.
//!
//! One process owns one central issue database and is the only process that
//! runs the `br` command line against it. This library holds the decisions of
//! that process and of its thin client: which command line a request becomes,
//! which reply an outcome becomes, what the client makes of a reply, which
//! endpoint the client talks to, and when a snapshot is committed.

pub mod args;
pub mod client;
pub mod committer;
pub mod config;
pub mod help;
pub mod json;
pub mod paths;
pub mod process;
pub mod remotes;
pub mod reply;
pub mod requests;
pub mod server;
pub mod text;
