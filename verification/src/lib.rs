//! Wire formats, a write-ahead log and pull consumers for a small message broker.

pub mod bytes;
pub mod errors;
pub mod publish;
pub mod message_types;
pub mod pull_wire_format;
pub mod client_commands;
pub mod consumer;
pub mod wal;
pub mod consumer_manager;
