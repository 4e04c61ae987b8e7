//! Core of a static-file web server: a route table mapping normalized URL
//! paths to content records, the per-file caching decision with ETag and
//! Last-Modified derivation, the conditional-request evaluator, the request
//! dispatcher, and the decision logic of the hot-reload watcher.
//!
//! The HTTP transport, the template grammar, configuration parsing and all
//! file-system access live outside this crate; they reach it only through
//! plain values and the narrow collaborator wrappers in `collaborators`.

pub mod address;
pub mod bytes;
pub mod collaborators;
pub mod cond;
pub mod config;
pub mod content_buffer;
pub mod dispatch;
pub mod keys;
pub mod record;
pub mod routes;
pub mod security;
pub mod table;
pub mod watcher;

use vstd::prelude::*;

verus! {

} // verus!
