//! Windows x64 PE and process-memory triage logic.

pub mod arith;
pub mod backing;
pub mod bytes;
pub mod code_section;
pub mod console;
pub mod debuginfo;
pub mod imports;
pub mod laws;
pub mod layout;
pub mod memory;
pub mod opcode;
pub mod paths;
pub mod patterns;
pub mod pe;
pub mod process;
pub mod progress;
pub mod ranges;
pub mod report;
pub mod scan;
pub mod sorting;
pub mod stack_strings;
pub mod string_scan;
pub mod strings;
pub mod teb;
pub mod text;
pub mod triage;
pub mod windows;
