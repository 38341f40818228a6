//! Core logic of a development file server built around a live-change
//! notification pipeline: a broadcast hub fans filesystem change events out to
//! bounded per-client queues, a stream encoder frames them as a server-push
//! event stream, and a manifest maps project files to freshness tokens.

pub mod cache_headers;
pub mod cli;
pub mod etag;
pub mod events;
pub mod manifest;
pub mod routes;
pub mod sse;
