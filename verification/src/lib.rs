//! Session core of a sandboxed SFTP server.
//!
//! The crate holds the decisions of one connection: who may log in, which
//! channel a file-transfer handler owns, what a session answers to each
//! request, and whether a path a client names lies within the sandbox. The
//! storage and the transport are driven by the embedding program, which hands
//! every outcome back as a plain value.

pub mod connection;
pub mod flags;
pub mod guard;
pub mod laws;
pub mod path;
pub mod prefix;
pub mod protocol;
pub mod server;
pub mod session;
pub mod status;
pub mod storage;
