//! Routing core of a JSON-RPC reverse proxy for Ethereum-compatible nodes.
//!
//! Every decision the proxy takes between receiving a request and answering
//! it is a function of this library, stated over plain values and proved
//! against its contract.

pub mod active_requests;
pub mod app;
pub mod block_helpers;
pub mod cache;
pub mod compute_units;
pub mod errors;
pub mod frontend;
pub mod json;
pub mod json_decoding;
pub mod jsonrpc;
pub mod jsonrpc_decoding;
pub mod methods;
pub mod pending_transactions;
pub mod primitives;
pub mod redis_errors;
pub mod rpcs;
pub mod sha3;
pub mod subscriptions;
pub mod text;
pub mod user_cache;
