//! What the operations are for, as laws over their inputs and results.
//!
//! The contracts say what each function returns. A law here says what must hold of that result
//! in terms of the fields, the bytes and the counts that a caller sees.

pub mod commit;
pub mod connecting;
pub mod decoding;
pub mod executors;
pub mod layout;
pub mod naming;
pub mod numbers;
pub mod pushing;
pub mod reading;
pub mod registration;
pub mod repartitioning;
pub mod revival;
pub mod settings;
pub mod splitting;
