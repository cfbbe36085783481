//! What the operations are for, stated over the bytes they read and the results they give.

pub mod code;
pub mod collection;
pub mod debug;
pub mod documents;
pub mod failures;
pub mod functions;
pub mod hits;
pub mod image;
pub mod imports;
pub mod locate;
pub mod memory;
pub mod names;
pub mod opcodes;
pub mod patterns;
pub mod process;
pub mod records;
pub mod refusals;
pub mod regions;
pub mod relocations;
pub mod seeds;
pub mod strings;
pub mod text;
pub mod traversal;
pub mod trust;
pub mod words;
pub mod xrefs;
