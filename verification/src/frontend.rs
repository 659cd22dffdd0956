//! What the proxy tells a client over HTTP.

pub mod errors;
pub mod http_proxy;
