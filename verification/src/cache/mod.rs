//! The cache store: a bounded least-recently-used mapping from cache keys to
//! image bytes.

pub mod backend;
pub mod laws;
pub mod model;
pub mod store;
