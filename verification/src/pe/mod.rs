//! Parsing and strict validation of mapped x64 PE images.

pub mod headers;
pub mod identity;
pub mod layout;
pub mod locate;
pub mod region;
pub mod remote;
pub mod snapshot;
pub mod types;
