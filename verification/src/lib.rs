//! A minimal single-protocol static-content server core.
//!
//! The crate covers the wire-format request/response model and its
//! encode rules, the request-line parser, the fetch-path resolution
//! algorithm that prevents path escape, and the admission/concurrency
//! bookkeeping for the connection controller. Socket and file I/O are
//! left to the surrounding program.

pub mod config;
pub mod gate;
pub mod http;
pub mod text;
