//! Breakpoint-related opcodes in a mapped image.

pub mod bitmap;
pub mod catalog;
pub mod collect;
pub mod decode;
pub mod evaluate;
pub mod hits;
pub mod padding;
pub mod queue;
pub mod raw;
pub mod relocation;
pub mod traverse;
