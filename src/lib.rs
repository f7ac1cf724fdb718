//! HTTP/1 transport core: an incremental request decoder, a response
//! encoder, the per-connection codec that binds them, and the decisions that
//! drive a connection (protocol selection, service readiness, dispatch).
pub mod buffer;
pub mod codec;
pub mod config;
pub mod decoder;
pub mod dispatcher;
pub mod encoder;
pub mod lits;
pub mod message;
pub mod service;
pub mod text;
pub mod wire;
