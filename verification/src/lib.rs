//! Verified core of a small HTTP API service: the request-handling pipeline
//! and service composition layer.
//!
//! The library models requests, responses, routing, the ordered middleware
//! chain (tracing, compression negotiation, CORS) and the graceful-shutdown
//! state machine, and proves how a response is produced for every request.
//! The surrounding process (sockets, the async runtime, the actual wire
//! encoding) lives outside the library and only hands plain values in and out.

pub mod clock;
pub mod config;
pub mod handlers;
pub mod http;
pub mod middleware;
pub mod pipeline;
pub mod router;
pub mod shutdown;
pub mod text;
