//! Admission front end for a mutually authenticated WebSocket service: a
//! per-address rate limiter, the per-connection admission state machine, a
//! bounded upgrade-request check, the accept-loop policy and the building of
//! the server's TLS configuration.
pub mod rate_limit;
pub mod admission;
pub mod handshake;
pub mod tls;
pub mod listener;
