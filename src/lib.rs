//! Client side of a reverse tunnel: the wire codec of the multiplexed bearer,
//! the per-stream state machines, and the decisions of the session supervisor.

pub mod wire;
pub mod envelope;
pub mod codec;
pub mod message;
pub mod headers;
pub mod response;
pub mod bridge;
pub mod stream;
pub mod session;
pub mod forward;
pub mod config;
pub mod command;
