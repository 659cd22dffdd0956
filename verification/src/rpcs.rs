//! The upstream nodes: what the proxy knows of each, the handles through
//! which requests reach them, and the pool that chooses among them.

pub mod blocks;
pub mod connection;
pub mod connections;
pub mod consensus;
pub mod request;
pub mod selection;

