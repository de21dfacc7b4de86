//! The JSON-RPC bridge: envelopes, authentication, rate limits, dispatch and
//! the steps of a client connection.
pub mod auth;
pub mod connection;
pub mod decode_drain;
pub mod dispatch;
pub mod engine;
pub mod error;
pub mod json;
pub mod library_proxy;
pub mod method;
pub mod ratelimit;
pub mod rpc;
