//! A client library for the Plex web services: device authentication with
//! Ed25519-signed JWTs, resource discovery and per-server connection
//! selection.
//!
//! The network transport lives outside this crate; the functions here decide
//! what is sent where, and keep the bookkeeping of servers and connections.

pub mod client;
pub mod endpoints;
pub mod error;
pub mod headers;
pub mod models;
