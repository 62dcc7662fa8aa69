//! Peripheral models of a BCM55030 system-on-chip built around an ARC700 core.

pub mod bits;
pub mod cache;
pub mod cpu;
pub mod mcp;
pub mod memory;
pub mod number;
pub mod order;
pub mod peripherals;
pub mod soc;
pub mod text;
