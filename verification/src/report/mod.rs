//! Structured documents of a triage.

pub mod documents;
pub mod errors;
pub mod value;
