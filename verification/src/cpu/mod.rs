//! What the memory system hands back to the core.

pub mod exception;
