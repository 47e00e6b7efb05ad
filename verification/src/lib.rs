//! A multi-group, multi-subscriber message broadcast core, together with a
//! collection of small verified data structures and utilities.
//!
//! The broadcast core lets clients join named groups and post text messages to
//! them; every subscriber of a group receives each message posted after it
//! joined, in posting order, with bounded retained history and explicit lag
//! reporting for slow readers.

pub mod ascii;
pub mod codec;
pub mod commands;
pub mod enums;
pub mod errors;
pub mod gap_buffer;
pub mod group;
pub mod group_table;
pub mod numbers;
pub mod patterns;
pub mod protocol;
pub mod queue;
pub mod ranges;
pub mod server;
pub mod spider;
pub mod structs;
pub mod text;
pub mod traits;
pub mod tree;
