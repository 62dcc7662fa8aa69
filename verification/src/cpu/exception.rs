//! The faults a bus access can raise.

use vstd::prelude::*;

verus! {

/// A memory access the core could not complete.
#[derive(Clone, Copy, Debug, PartialEq, Eq, Structural)]
pub enum Exception {
    /// Nothing answers at this address.
    MemoryError { address: u32, is_write: bool },
    /// The address is not a multiple of the access width.
    MisalignedAccess { address: u32 },
}

} // verus!
