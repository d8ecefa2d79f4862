//! The core of a small key-value service: the table of records, the rules for
//! reading a request, and the replies the service gives.

pub mod config;
pub mod record;
pub mod store;
pub mod laws;
pub mod json;
pub mod service;
