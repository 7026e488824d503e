//! A local TCP tunnel client's decision logic: the CONNECT handshake with an
//! HTTP proxy, the choice between proxy and direct dial, and the rules by which
//! a relayed connection ends.

pub mod config;
pub mod connector;
pub mod credential;
pub mod error;
pub mod handshake;
pub mod number;
pub mod proxy_url;
pub mod request;
pub mod server;
pub mod session;
pub mod text;
