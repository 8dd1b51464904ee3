//! The client: reading and writing shuffle data.

pub mod compression;
pub mod executor_shuffle_client;
pub mod fetch;
pub mod input_stream;
pub mod lifecycle;
pub mod lifecycle_client;
pub mod locations;
pub mod lz4_lengths;
pub mod partition_reader;
pub mod partition_split;
pub mod push;
pub mod revive;
pub mod shuffle;
pub mod stream_content;
pub mod stream_fill;
pub mod stream_read;
pub mod stream_turns;
