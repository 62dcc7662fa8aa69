//! Where the boot path puts things.

use vstd::prelude::*;

verus! {

/// Runtime base where firmware is loaded in SRAM. The bootloader stays in
/// place below `0xA800`; firmware sits above it at this base.
pub const FIRMWARE_BASE: u32 = 0x32000;

} // verus!
