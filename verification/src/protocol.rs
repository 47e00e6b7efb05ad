//! The typed packets exchanged between clients and the chat server.
//!
//! The wire codec (one encoded packet per line of a byte stream) is an outside
//! concern; the core works with these typed values only. Strings are shared
//! through `Arc` so that one posted message can be handed to many subscribers
//! without copying.

use std::sync::Arc;
use vstd::prelude::*;

verus! {

/// What a client can send to the server: join a group, or post a message to a
/// group.
#[derive(Debug, PartialEq)]
pub enum FromClient {
    Join { group_name: Arc<String> },
    Post { group_name: Arc<String>, message: Arc<String> },
}

/// What the server can send back: a message posted to some group the client
/// joined, or an error report.
#[derive(Debug, PartialEq)]
pub enum FromServer {
    Message { group_name: Arc<String>, message: Arc<String> },
    Error(String),
}

} // verus!
