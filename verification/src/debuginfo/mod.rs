//! Debug information that an image refers to.

pub mod dbi;
pub mod pdb;
