//! Standard imports of a mapped image and direct code references to them.

pub mod availability;
pub mod collector;
pub mod parsing;
pub mod xrefs;
