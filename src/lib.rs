//! The server side of a remote scripting connection: a client interpreter is
//! driven by batches of code text, addressed by numbered slots, and answers
//! through completion signals and named RPC calls. This crate holds the
//! connection state and its rules; transport, locking and scheduling stand
//! around it.
pub mod awaiting;
pub mod digest;
pub mod laws;
pub mod link;
pub mod operations;
pub mod outside;
pub mod protocol;
pub mod retrieve;
pub mod rpc;
pub mod serialize;
pub mod table;
pub mod text;
pub mod value;
