//! Verified core of a command-line client for the Synology DSM Photos web
//! API.
//!
//! The crate models the client's decision logic: building wire requests for
//! each API operation, decoding the response envelope, resolving an album by
//! name across several collections, resolving folder ids to paths, and
//! orchestrating the asynchronous photo-copy export with its poll loop. All
//! transport, prompting and persistence is left to the embedding program,
//! which drives the state machines defined here with plain values.

pub mod album;
pub mod api;
pub mod cli;
pub mod client;
pub mod conf;
pub mod export;
pub mod folders;
pub mod login;
pub mod paths;
pub mod resolver;
pub mod text;
pub mod update;
