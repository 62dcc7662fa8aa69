//! Half-word and byte accesses: a lane of the word that covers the address.

use vstd::prelude::*;

use super::{BankState, PeripheralBank};
use crate::cpu::exception::Exception;
use crate::soc::devices::Owner;
use crate::soc::peripheral::{merge_byte, merge_half, select_byte, select_half};

verus! {

impl BankState {
    /// What a half-word read gives.
    #[verifier::opaque]
    pub open spec fn half_result(self, addr: u32) -> Result<u16, Exception> {
        match crate::soc::scenario::override_answer(self.dev.scenario.overrides, addr & !3) {
            Some(word) => Ok(crate::soc::peripheral::half_lane(word, addr)),
            None => {
                let dev = self.after_override_read(addr & !3).dev;
                let owner = dev.owner(addr, true);
                if owner is Unmapped {
                    self.unclaimed(addr, false, 0u16)
                } else {
                    Ok(dev.half(owner, addr))
                }
            },
        }
    }

    /// What a byte read gives.
    #[verifier::opaque]
    pub open spec fn byte_result(self, addr: u32) -> Result<u8, Exception> {
        match crate::soc::scenario::override_answer(self.dev.scenario.overrides, addr & !3) {
            Some(word) => Ok(crate::soc::peripheral::byte_lane(word, addr)),
            None => {
                let dev = self.after_override_read(addr & !3).dev;
                let owner = dev.owner(addr, true);
                if owner is Unmapped {
                    self.unclaimed(addr, false, 0u8)
                } else {
                    Ok(dev.byte(owner, addr))
                }
            },
        }
    }

    /// The log of a narrow access an override answered.
    pub open spec fn override_logged(
        self,
        addr: u32,
        val: u32,
        width: &'static str,
    ) -> BankState {
        self.with_log(
            self.log.after_history(addr, val, "read", width, "override").after_emit(
                addr,
                val,
                "r"@,
                width@,
                "override"@,
            ),
        )
    }

    /// The bank after a half-word read.
    #[verifier::opaque]
    pub open spec fn after_half_read(self, addr: u32) -> BankState {
        let next = self.after_override_read(addr & !3);
        match crate::soc::scenario::override_answer(self.dev.scenario.overrides, addr & !3) {
            Some(word) => next.override_logged(
                addr,
                crate::soc::peripheral::half_lane(word, addr) as u32,
                "half",
            ),
            None => {
                let owner = next.dev.owner(addr, true);
                if owner is Unmapped {
                    next.with_log(next.log.after_emit(addr, 0, "r"@, "half"@, "unmapped"@))
                } else {
                    next.with_dev(next.dev.after_read(owner, addr & !3, 2)).with_log(
                        next.log.after_emit(
                            addr,
                            next.dev.half(owner, addr) as u32,
                            "r"@,
                            "half"@,
                            owner.tag()@,
                        ),
                    )
                }
            },
        }
    }

    /// The bank after a byte read.
    #[verifier::opaque]
    pub open spec fn after_byte_read(self, addr: u32) -> BankState {
        let next = self.after_override_read(addr & !3);
        match crate::soc::scenario::override_answer(self.dev.scenario.overrides, addr & !3) {
            Some(word) => next.override_logged(
                addr,
                crate::soc::peripheral::byte_lane(word, addr) as u32,
                "byte",
            ),
            None => {
                let owner = next.dev.owner(addr, true);
                if owner is Unmapped {
                    next.with_log(next.log.after_emit(addr, 0, "r"@, "byte"@, "unmapped"@))
                } else {
                    next.with_dev(next.dev.after_byte_read(owner, addr)).with_log(
                        next.log.after_emit(
                            addr,
                            next.dev.byte(owner, addr) as u32,
                            "r"@,
                            "byte"@,
                            owner.tag()@,
                        ),
                    )
                }
            },
        }
    }

    /// Whether a narrow read can be counted. An override counts none.
    #[verifier::opaque]
    pub open spec fn can_read_narrow(self, addr: u32) -> bool {
        let dev = self.after_override_read(addr & !3).dev;
        ||| crate::soc::scenario::override_answer(self.dev.scenario.overrides, addr & !3) is Some
        ||| dev.readable(dev.owner(addr, true), addr & !3)
    }

    /// What a narrow write gives.
    pub open spec fn narrow_write_result(self, addr: u32) -> Result<(), Exception> {
        if self.dev.owner(addr, true) is Unmapped {
            self.unclaimed(addr, true, ())
        } else {
            Ok(())
        }
    }

    /// The bank after a half-word write.
    #[verifier::opaque]
    pub open spec fn after_half_write(self, addr: u32, val: u16) -> BankState {
        let owner = self.dev.owner(addr, true);
        self.with_dev(
            if owner is Unmapped {
                self.dev
            } else {
                self.dev.after_half_write(owner, addr, val)
            },
        ).with_log(self.log.after_emit(addr, val as u32, "w"@, "half"@, owner.tag()@))
    }

    /// The bank after a byte write.
    #[verifier::opaque]
    pub open spec fn after_byte_write(self, addr: u32, val: u8) -> BankState {
        let owner = self.dev.owner(addr, true);
        self.with_dev(
            if owner is Unmapped {
                self.dev
            } else {
                self.dev.after_byte_write(owner, addr, val)
            },
        ).with_log(self.log.after_emit(addr, val as u32, "w"@, "byte"@, owner.tag()@))
    }

    /// Whether a half-word write asks for something its register can do.
    #[verifier::opaque]
    pub open spec fn can_write_half(self, addr: u32, val: u16) -> bool {
        let owner = self.dev.owner(addr, true);
        self.dev.writable(owner, addr & !3, self.dev.half_merged(owner, addr, val))
    }

    /// Whether a byte write asks for something its register can do.
    #[verifier::opaque]
    pub open spec fn can_write_byte(self, addr: u32, val: u8) -> bool {
        let owner = self.dev.owner(addr, true);
        self.dev.writable(owner, addr & !3, self.dev.byte_merged(owner, addr, val))
    }
}

impl PeripheralBank {
    fn log_override(&mut self, addr: u32, val: u32, width: &'static str)
        requires
            old(self).wf(),
        ensures
            final(self).wf(),
            final(self)@ == old(self)@.override_logged(addr, val, width),
    {
        self.log.record_history(addr, val, "read", width, "override");
        self.log.seq_emit(addr, val, "r", width, "override");
    }

    pub fn read_half(&mut self, addr: u32) -> (r: Result<u16, Exception>)
        requires
            old(self).wf(),
            old(self)@.can_read_narrow(addr),
        ensures
            final(self).wf(),
            r == old(self)@.half_result(addr),
            final(self)@ == old(self)@.after_half_read(addr),
    {
        proof {
            reveal(BankState::can_read_narrow);
            reveal(BankState::half_result);
            reveal(BankState::after_half_read);
        }
        if let Some(word) = self.take_override(addr & !3) {
            let v: u16 = select_half(word, addr);
            self.log_override(addr, v as u32, "half");
            return Ok(v);
        }
        let owner = self.owner_of(addr, true);
        proof {
            crate::soc::devices::lemma_owner_claims(self@.dev, addr, true);
        }
        if let Owner::Unmapped = owner {
            self.emit(addr, 0, "r", "half", "unmapped");
            if self.unmapped_exception {
                return Err(Exception::MemoryError { address: addr, is_write: false });
            }
            return Ok(0);
        }
        let word: u32 = self.read_register(owner, addr & !3, 2);
        let v: u16 = select_half(word, addr);
        self.emit(addr, v as u32, "r", "half", owner.name());
        Ok(v)
    }

    pub fn read_byte(&mut self, addr: u32) -> (r: Result<u8, Exception>)
        requires
            old(self).wf(),
            old(self)@.can_read_narrow(addr),
        ensures
            final(self).wf(),
            r == old(self)@.byte_result(addr),
            final(self)@ == old(self)@.after_byte_read(addr),
    {
        proof {
            reveal(BankState::can_read_narrow);
            reveal(BankState::byte_result);
            reveal(BankState::after_byte_read);
        }
        if let Some(word) = self.take_override(addr & !3) {
            let v: u8 = select_byte(word, addr);
            self.log_override(addr, v as u32, "byte");
            return Ok(v);
        }
        let owner = self.owner_of(addr, true);
        proof {
            crate::soc::devices::lemma_owner_claims(self@.dev, addr, true);
        }
        if let Owner::Unmapped = owner {
            self.emit(addr, 0, "r", "byte", "unmapped");
            if self.unmapped_exception {
                return Err(Exception::MemoryError { address: addr, is_write: false });
            }
            return Ok(0);
        }
        let v: u8 = if let Owner::Uart = owner {
            self.read_register(owner, addr, 1) as u8
        } else {
            let word: u32 = self.read_register(owner, addr & !3, 1);
            select_byte(word, addr)
        };
        self.emit(addr, v as u32, "r", "byte", owner.name());
        Ok(v)
    }

    /// The word a narrow write merges into.
    pub(crate) fn merge_base(&self, owner: Owner, addr: u32) -> (r: u32)
        requires
            self.wf(),
            owner == self@.dev.owner(addr, true),
        ensures
            r == self@.dev.merge_base(owner, addr),
    {
        proof {
            crate::soc::devices::lemma_owner_claims(self@.dev, addr, true);
        }
        if let Owner::Sysreg = owner {
            self.sysreg.word(addr & !3)
        } else {
            self.peek_register(owner, addr & !3)
        }
    }

    pub fn write_half(&mut self, addr: u32, val: u16) -> (r: Result<(), Exception>)
        requires
            old(self).wf(),
            old(self)@.can_write_half(addr, val),
        ensures
            final(self).wf(),
            r == old(self)@.narrow_write_result(addr),
            final(self)@ == old(self)@.after_half_write(addr, val),
    {
        proof {
            reveal(BankState::can_write_half);
            reveal(BankState::after_half_write);
            crate::soc::devices::lemma_owner_claims(self@.dev, addr, true);
        }
        let owner = self.owner_of(addr, true);
        if let Owner::Unmapped = owner {
            self.emit(addr, val as u32, "w", "half", "unmapped");
            if self.unmapped_exception {
                return Err(Exception::MemoryError { address: addr, is_write: true });
            }
            return Ok(());
        }
        let base: u32 = self.merge_base(owner, addr);
        self.write_register(owner, addr & !3, merge_half(base, addr, val), 2);
        self.emit(addr, val as u32, "w", "half", owner.name());
        Ok(())
    }

    pub fn write_byte(&mut self, addr: u32, val: u8) -> (r: Result<(), Exception>)
        requires
            old(self).wf(),
            old(self)@.can_write_byte(addr, val),
        ensures
            final(self).wf(),
            r == old(self)@.narrow_write_result(addr),
            final(self)@ == old(self)@.after_byte_write(addr, val),
    {
        proof {
            reveal(BankState::can_write_byte);
            reveal(BankState::after_byte_write);
            crate::soc::devices::lemma_owner_claims(self@.dev, addr, true);
        }
        let owner = self.owner_of(addr, true);
        if let Owner::Unmapped = owner {
            self.emit(addr, val as u32, "w", "byte", "unmapped");
            if self.unmapped_exception {
                return Err(Exception::MemoryError { address: addr, is_write: true });
            }
            return Ok(());
        }
        if let Owner::Uart = owner {
            self.write_register(owner, addr, val as u32, 1);
        } else {
            let base: u32 = self.merge_base(owner, addr);
            self.write_register(owner, addr & !3, merge_byte(base, addr, val), 1);
        }
        self.emit(addr, val as u32, "w", "byte", owner.name());
        Ok(())
    }
}

/// An override of the word that covers the address answers a narrow read with
/// its part of the word, the highest first, whoever owns the address.
pub proof fn law_override_answers_narrow_reads(b: BankState, addr: u32, word: u32)
    requires
        crate::soc::scenario::override_answer(
            b.dev.scenario.overrides,
            (addr - addr % 4) as u32,
        ) == Some(word),
    ensures
        addr % 4 < 2 ==> b.half_result(addr) == Ok::<u16, Exception>((word / 0x1_0000) as u16),
        addr % 4 >= 2 ==> b.half_result(addr) == Ok::<u16, Exception>((word % 0x1_0000) as u16),
        addr % 4 == 0 ==> b.byte_result(addr) == Ok::<u8, Exception>((word / 0x0100_0000) as u8),
        addr % 4 == 1 ==> b.byte_result(addr) == Ok::<u8, Exception>(
            ((word / 0x1_0000) % 0x100) as u8,
        ),
        addr % 4 == 2 ==> b.byte_result(addr) == Ok::<u8, Exception>(
            ((word / 0x100) % 0x100) as u8,
        ),
        addr % 4 == 3 ==> b.byte_result(addr) == Ok::<u8, Exception>((word % 0x100) as u8),
{
    reveal(BankState::half_result);
    reveal(BankState::byte_result);
    crate::bits::lemma_round_down(addr);
    crate::soc::peripheral::law_bytes_stand_big_endian(word, addr);
}

/// Without an override, a narrow access goes to whoever owns the address. One
/// that nobody owns fails where that is asked for, reads zero and takes nothing
/// otherwise.
pub proof fn law_narrow_accesses_go_to_the_owner(b: BankState, addr: u32, half: u16, byte: u8)
    requires
        crate::soc::scenario::override_answer(
            b.dev.scenario.overrides,
            (addr - addr % 4) as u32,
        ) is None,
        crate::soc::scenario::overrides_after_read(
            b.dev.scenario.overrides,
            (addr - addr % 4) as u32,
        ) == b.dev.scenario.overrides,
    ensures
        ({
            let owner = b.dev.owner(addr, true);
            &&& !(owner is Unmapped) ==> b.half_result(addr) == Ok::<u16, Exception>(
                b.dev.half(owner, addr),
            )
            &&& !(owner is Unmapped) ==> b.byte_result(addr) == Ok::<u8, Exception>(
                b.dev.byte(owner, addr),
            )
            &&& !(owner is Unmapped) ==> b.narrow_write_result(addr) is Ok
            &&& !(owner is Unmapped) ==> b.after_half_write(addr, half).dev
                == b.dev.after_half_write(owner, addr, half)
            &&& !(owner is Unmapped) ==> b.after_byte_write(addr, byte).dev
                == b.dev.after_byte_write(owner, addr, byte)
            &&& owner is Unmapped && b.unmapped_exception ==> b.half_result(addr) == Err::<
                u16,
                Exception,
            >(Exception::MemoryError { address: addr, is_write: false }) && b.byte_result(addr)
                == Err::<u8, Exception>(
                Exception::MemoryError { address: addr, is_write: false },
            ) && b.narrow_write_result(addr) == Err::<(), Exception>(
                Exception::MemoryError { address: addr, is_write: true },
            )
            &&& owner is Unmapped && !b.unmapped_exception ==> b.half_result(addr) == Ok::<
                u16,
                Exception,
            >(0) && b.byte_result(addr) == Ok::<u8, Exception>(0) && b.narrow_write_result(
                addr,
            ) is Ok
            &&& owner is Unmapped ==> b.after_half_write(addr, half).dev == b.dev
                && b.after_byte_write(addr, byte).dev == b.dev
        }),
{
    reveal(BankState::half_result);
    reveal(BankState::byte_result);
    reveal(BankState::after_half_write);
    reveal(BankState::after_byte_write);
    crate::bits::lemma_round_down(addr);
}

} // verus!
