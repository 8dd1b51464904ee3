//! Network layer for Celeborn client.
//!
//! Framing, request and response handling, and the choice of endpoints and
//! connections.

pub mod codec;
pub mod connection;
pub mod java_answers;
pub mod master_rpc;
pub mod transport;
