//! The requests and responses of the wasm module's queries.

pub mod query;
