//! Praxis filter pipelines as an Envoy external processor: the protocol
//! messages, the per-stream state machine, configuration and TLS setup.

pub mod response;
pub mod server;
pub mod error;
pub mod tls;
pub mod config;
