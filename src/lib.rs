//! A store of named polls: creation, voter registration, weighted voting,
//! tallying and removal of expired polls, with every transition verified.

pub mod error;
pub mod laws;
pub mod model;
pub mod store;
pub mod time;
