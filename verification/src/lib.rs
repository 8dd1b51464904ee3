//! Client library for Apache Celeborn, a remote shuffle service.
//!
//! The library holds the rules of the client as verified functions: the wire
//! protocol, the framing, the bookkeeping of shuffles and partitions, and the
//! decisions that the asynchronous client takes between two network calls.
//! Sockets, tasks and timers live in the crate around it.

pub mod buffers;
pub mod client;
pub mod config;
pub mod error;
pub mod laws;
pub mod network;
pub mod protocol;
pub mod repartitioner;
pub mod string_map;
pub mod tables;
pub mod text;
pub mod time;
pub mod wire;
