//! An edge caching reverse proxy core: origin validation, cache-key
//! derivation, a bounded time-expiring cache store, upstream response
//! capture, and outbound response construction.
//!
//! Everything here works on plain values (byte sequences, integers); the
//! surrounding HTTP server and client runtime hand those values in and out.

pub mod bytestr;
pub mod cache;
pub mod config;
pub mod cors;
pub mod http;
pub mod origin;
pub mod pipeline;
pub mod stats;
