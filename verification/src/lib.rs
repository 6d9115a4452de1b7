//! An in-memory movie catalogue: a store of records keyed by generated
//! 128-bit identifiers, together with the request-handling layer that maps
//! store results to HTTP status codes.

pub mod handlers;
pub mod laws;
pub mod movie;
pub mod store;
