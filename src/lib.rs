//! An in-memory message store: records keyed by a random identifier,
//! with the create / read / update / delete operations that an HTTP
//! front end exposes.

pub mod handlers;
pub mod id;
pub mod laws;
pub mod store;
