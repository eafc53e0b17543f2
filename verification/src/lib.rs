//! A key-value store that a cluster of servers replicates through a shared log.

pub mod config;
pub mod connection;
pub mod database;
mod deliveries;
mod endings;
pub mod json;
pub mod kv;
pub mod link;
pub mod maelstrom;
pub mod messages;
pub mod network;
mod outbox;
mod queue;
pub mod server;
pub mod shim;
pub mod text;
pub mod url;
