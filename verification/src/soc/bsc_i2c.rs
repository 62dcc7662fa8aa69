//! The on-chip I2C master that talks to the optical module.
//!
//!   * `0x01000140` CMD: bit 28 latches the sub-address, bit 27 triggers a
//!     word read, bit 0 picks the module page. Bits `[31:27]` clear once the
//!     command is taken.
//!   * `0x0100014C` DATA: a write sets the sub-address for the next latch, a
//!     read returns the last word read.
//!   * `0x01000150` STAT: bit 31 is busy. A write with bit 22 arms a burst of
//!     bits `[13:3]` bytes.
//!
//! A burst goes: write DATA, latch, arm, then one trigger per word. A trigger
//! without that, or past the end of the burst, leaves the last word standing.

use vstd::prelude::*;

use crate::cpu::exception::Exception;
use crate::soc::peripheral::{
    AddressRange, BscEvent, BscSnapshot, PeripheralError, PeripheralEvent, PeripheralSnapshot,
    SfpEvent, SfpSnapshot,
};
use crate::soc::sfp_eeprom::{Ddm, SfpEeprom, SfpState};

verus! {

pub const BSC_BASE: u32 = 0x01000140;

pub const BSC_END: u32 = 0x01000158;

pub const REG_CMD: u32 = 0x140;

pub const REG_BASE_ADDR: u32 = 0x14C;

pub const REG_STATUS: u32 = 0x150;

/// Ticks the busy bit stays up after a command.
pub const BSC_BUSY_TICKS: u8 = 2;

#[derive(Clone, Copy, Debug, PartialEq, Eq, Structural)]
pub enum BusState {
    Idle,
    Busy,
    Done,
}

#[derive(Clone, Copy, Debug, PartialEq, Eq, Structural)]
pub enum ProtocolState {
    Idle,
    SubAddrLatched,
    Armed,
}

/// The master, as values.
#[verifier::ext_equal]
pub struct BscState {
    pub sfp: SfpState,
    pub state: BusState,
    pub busy_counter: u8,
    pub protocol: ProtocolState,
    pub pending_sub_addr: u16,
    pub sub_addr: u16,
    pub eeprom_ptr: u16,
    pub byte_count: u16,
    pub bytes_read: u16,
    pub last_device: u8,
    pub pending_read_word: u32,
    pub force_nack: bool,
    pub raw: Seq<u32>,
}

/// The register offset of an address.
pub open spec fn bsc_offset(addr: u32) -> int {
    addr - 0x0100_0000
}

/// Whether an offset has a stored word.
pub open spec fn is_stored(offset: int) -> bool {
    0x140 <= offset < 0x158
}

/// Where the stored word of an offset lies.
pub open spec fn stored_at(offset: int) -> int {
    (offset - 0x140) / 4
}

/// The flags of a command word.
pub open spec fn command_flags(val: u32) -> u32 {
    (val >> 27) & 0x1F
}

/// The length of the burst an arming word asks for.
pub open spec fn burst_length(val: u32) -> u16 {
    ((val >> 3) & 0x7FF) as u16
}

impl BscState {
    pub open spec fn cleared(sfp: SfpState) -> BscState {
        BscState {
            sfp,
            state: BusState::Idle,
            busy_counter: 0,
            protocol: ProtocolState::Idle,
            pending_sub_addr: 0,
            sub_addr: 0,
            eeprom_ptr: 0,
            byte_count: 0,
            bytes_read: 0,
            last_device: 0,
            pending_read_word: 0,
            force_nack: false,
            raw: Seq::new(6, |i: int| 0u32),
        }
    }

    /// The word an address reads as.
    pub open spec fn word_at(self, addr: u32) -> u32 {
        let off = bsc_offset(addr);
        if off == REG_BASE_ADDR {
            self.pending_read_word
        } else if off == REG_STATUS {
            if self.state is Busy {
                self.raw[4] | 0x8000_0000
            } else {
                self.raw[4] & !0x8000_0000
            }
        } else if is_stored(off) {
            self.raw[stored_at(off)]
        } else {
            0
        }
    }

    /// Reading DATA acknowledges a finished transfer.
    pub open spec fn after_read(self, addr: u32) -> BscState {
        if bsc_offset(addr) == REG_BASE_ADDR && self.state is Done {
            BscState { state: BusState::Idle, ..self }
        } else {
            self
        }
    }

    /// Whether a read trigger moves a word.
    pub open spec fn burst_open(self) -> bool {
        self.protocol is Armed && self.bytes_read < self.byte_count
    }

    /// The master after one word of a burst moves.
    pub open spec fn after_word_moved(self) -> BscState {
        BscState {
            pending_read_word: if self.force_nack {
                0xFFFF_FFFF
            } else {
                self.sfp.word(self.last_device, self.eeprom_ptr)
            },
            force_nack: false,
            eeprom_ptr: self.eeprom_ptr.wrapping_add(4),
            bytes_read: (self.bytes_read + 4) as u16,
            protocol: if self.bytes_read + 4 >= self.byte_count {
                ProtocolState::Idle
            } else {
                self.protocol
            },
            ..self
        }
    }

    pub open spec fn busied(self) -> BscState {
        BscState { state: BusState::Busy, busy_counter: BSC_BUSY_TICKS, ..self }
    }

    /// The master after a command word.
    pub open spec fn after_command(self, val: u32) -> BscState {
        let addressed = BscState { last_device: (val & 0x1) as u8, ..self };
        let flags = command_flags(val);
        let acted = if flags & 2 != 0 {
            BscState {
                sub_addr: self.pending_sub_addr,
                protocol: ProtocolState::SubAddrLatched,
                ..addressed
            }.busied()
        } else if flags & 1 != 0 {
            if addressed.burst_open() {
                addressed.after_word_moved().busied()
            } else {
                addressed.busied()
            }
        } else {
            addressed
        };
        BscState { raw: acted.raw.update(0, val & 0x07FF_FFFF), ..acted }
    }

    /// The master after a word is written.
    pub open spec fn after_write(self, addr: u32, val: u32) -> BscState {
        let off = bsc_offset(addr);
        let stored = if is_stored(off) {
            BscState { raw: self.raw.update(stored_at(off), val), ..self }
        } else {
            self
        };
        if off == REG_CMD {
            stored.after_command(val)
        } else if off == REG_BASE_ADDR {
            BscState { pending_sub_addr: (val & 0xFFFF) as u16, ..stored }
        } else if off == REG_STATUS {
            let noted = BscState { raw: stored.raw.update(4, val & !1), ..stored };
            if val & 0x0040_0000 != 0 && self.protocol is SubAddrLatched && burst_length(val) > 0 {
                BscState {
                    byte_count: burst_length(val),
                    eeprom_ptr: self.sub_addr,
                    bytes_read: 0,
                    protocol: ProtocolState::Armed,
                    ..noted
                }.busied()
            } else {
                noted
            }
        } else {
            stored
        }
    }

    pub open spec fn after_tick(self) -> BscState {
        if self.state is Busy && self.busy_counter > 0 {
            BscState {
                busy_counter: (self.busy_counter - 1) as u8,
                state: if self.busy_counter == 1 {
                    BusState::Done
                } else {
                    self.state
                },
                ..self
            }
        } else {
            self
        }
    }

    pub open spec fn with_ddm(self, ddm: Ddm) -> BscState {
        BscState { sfp: SfpState { ddm, ..self.sfp }, ..self }
    }

    /// The master after an event; `None` where it is not addressed to it.
    pub open spec fn after_event(self, event: PeripheralEvent) -> Option<BscState> {
        match event {
            PeripheralEvent::Bsc(BscEvent::ForceNack) => Some(
                BscState { force_nack: true, ..self },
            ),
            PeripheralEvent::Bsc(BscEvent::Reset) => Some(
                BscState { state: BusState::Idle, busy_counter: 0, ..self },
            ),
            PeripheralEvent::Sfp(ev) => Some(
                match ev {
                    SfpEvent::SetTemperatureC256(v) => self.with_ddm(
                        Ddm { temperature_c256: v, ..self.sfp.ddm },
                    ),
                    SfpEvent::SetVccUv(uv) => self.with_ddm(
                        Ddm { vcc_100uv: capped(uv as int / 100), ..self.sfp.ddm },
                    ),
                    SfpEvent::SetTxBiasUa(ua) => self.with_ddm(
                        Ddm { tx_bias_2ua: capped(ua as int / 2), ..self.sfp.ddm },
                    ),
                    SfpEvent::SetTxPowerUw(uw) => self.with_ddm(
                        Ddm { tx_power_01uw: capped(uw * 10), ..self.sfp.ddm },
                    ),
                    SfpEvent::SetRxPowerUw(uw) => self.with_ddm(
                        Ddm { rx_power_01uw: capped(uw * 10), ..self.sfp.ddm },
                    ),
                    SfpEvent::SetVendorName(n) => BscState {
                        sfp: self.sfp.with_field(20, n@),
                        ..self
                    },
                    SfpEvent::SetSerialNumber(n) => BscState {
                        sfp: self.sfp.with_field(68, n@),
                        ..self
                    },
                    SfpEvent::SetPartNumber(n) => BscState {
                        sfp: self.sfp.with_field(40, n@),
                        ..self
                    },
                },
            ),
            _ => None,
        }
    }
}

/// A reading limited to what a 16-bit register holds.
pub open spec fn capped(v: int) -> u16 {
    if v <= 0xFFFF {
        v as u16
    } else {
        0xFFFF
    }
}

#[derive(Debug)]
pub struct BscI2c {
    pub sfp: SfpEeprom,
    pub state: BusState,
    pub busy_counter: u8,
    pub protocol: ProtocolState,
    pub pending_sub_addr: u16,
    pub sub_addr: u16,
    pub eeprom_ptr: u16,
    pub byte_count: u16,
    pub bytes_read: u16,
    pub last_device: u8,
    pub pending_read_word: u32,
    pub force_nack: bool,
    pub raw_store: [u32; 6],
}

impl View for BscI2c {
    type V = BscState;

    open spec fn view(&self) -> BscState {
        BscState {
            sfp: self.sfp@,
            state: self.state,
            busy_counter: self.busy_counter,
            protocol: self.protocol,
            pending_sub_addr: self.pending_sub_addr,
            sub_addr: self.sub_addr,
            eeprom_ptr: self.eeprom_ptr,
            byte_count: self.byte_count,
            bytes_read: self.bytes_read,
            last_device: self.last_device,
            pending_read_word: self.pending_read_word,
            force_nack: self.force_nack,
            raw: self.raw_store@,
        }
    }
}

impl Clone for BscI2c {
    fn clone(&self) -> (r: Self)
        ensures
            r@ == self@,
    {
        let r = BscI2c {
            sfp: self.sfp.clone(),
            state: self.state,
            busy_counter: self.busy_counter,
            protocol: self.protocol,
            pending_sub_addr: self.pending_sub_addr,
            sub_addr: self.sub_addr,
            eeprom_ptr: self.eeprom_ptr,
            byte_count: self.byte_count,
            bytes_read: self.bytes_read,
            last_device: self.last_device,
            pending_read_word: self.pending_read_word,
            force_nack: self.force_nack,
            raw_store: self.raw_store,
        };
        assert(r@ =~= self@);
        r
    }
}

impl BscI2c {
    /// The pages are whole, and a burst is no longer than its field allows.
    pub open spec fn wf(&self) -> bool {
        self.sfp.wf() && self.byte_count <= 0x7FF
    }

    pub fn new() -> (r: Self)
        ensures
            r.wf(),
            r@ == BscState::cleared(SfpState::placeholder()),
    {
        let r = BscI2c {
            sfp: SfpEeprom::new_default(),
            state: BusState::Idle,
            busy_counter: 0,
            protocol: ProtocolState::Idle,
            pending_sub_addr: 0,
            sub_addr: 0,
            eeprom_ptr: 0,
            byte_count: 0,
            bytes_read: 0,
            last_device: 0,
            pending_read_word: 0,
            force_nack: false,
            raw_store: [0u32; 6],
        };
        assert(r.raw_store@ =~= Seq::new(6, |i: int| 0u32));
        r
    }

    pub fn name(&self) -> (r: &'static str)
        ensures
            r@ == "bsc_i2c"@,
    {
        "bsc_i2c"
    }

    pub fn address_ranges(&self) -> (r: [AddressRange; 1])
        ensures
            r[0] == (AddressRange { start: BSC_BASE, end: BSC_END }),
    {
        [AddressRange::new(BSC_BASE, BSC_END)]
    }

    pub fn claims(&self, addr: u32) -> (r: bool)
        ensures
            r == (BSC_BASE <= addr < BSC_END),
    {
        BSC_BASE <= addr && addr < BSC_END
    }

    fn store_idx(&self, offset: u32) -> (r: Option<usize>)
        ensures
            r is Some <==> is_stored(offset as int),
            r is Some ==> r->0 == stored_at(offset as int) && r->0 < 6,
    {
        if offset >= 0x140 && offset < 0x158 {
            Some(((offset - 0x140) / 4) as usize)
        } else {
            None
        }
    }

    /// What the optical module shows, in plain units.
    pub fn sfp_snapshot(&self) -> (r: PeripheralSnapshot)
        requires
            self.wf(),
        ensures
            ({
                let ddm = self@.sfp.ddm;
                &&& r matches PeripheralSnapshot::Sfp(s)
                &&& s.vendor@ == self@.sfp.a0.subrange(20, 36)
                &&& s.part_number@ == self@.sfp.a0.subrange(40, 56)
                &&& s.serial@ == self@.sfp.a0.subrange(68, 84)
                &&& s.temperature_c256 == ddm.temperature_c256
                &&& s.vcc_uv == ddm.vcc_100uv * 100
                &&& s.tx_bias_ua == ddm.tx_bias_2ua * 2
                &&& s.tx_power_uw == ddm.tx_power_01uw as int / 10
                &&& s.rx_power_uw == ddm.rx_power_01uw as int / 10
            }),
    {
        PeripheralSnapshot::Sfp(
            SfpSnapshot {
                vendor: self.sfp.vendor_name(),
                serial: self.sfp.serial_number(),
                part_number: self.sfp.part_number(),
                temperature_c256: self.sfp.ddm.temperature_c256,
                vcc_uv: (self.sfp.ddm.vcc_100uv as u32) * 100,
                tx_bias_ua: (self.sfp.ddm.tx_bias_2ua as u32) * 2,
                tx_power_uw: (self.sfp.ddm.tx_power_01uw as u32) / 10,
                rx_power_uw: (self.sfp.ddm.rx_power_01uw as u32) / 10,
            },
        )
    }

    fn issue_command(&mut self, val: u32)
        requires
            old(self).wf(),
        ensures
            final(self).wf(),
            final(self)@ == old(self)@.after_command(val),
    {
        self.last_device = (val & 0x1) as u8;
        let cmd_hi: u32 = (val >> 27) & 0x1F;
        if cmd_hi & 2 != 0 {
            self.sub_addr = self.pending_sub_addr;
            self.protocol = ProtocolState::SubAddrLatched;
            self.state = BusState::Busy;
            self.busy_counter = BSC_BUSY_TICKS;
        } else if cmd_hi & 1 != 0 {
            if self.protocol == ProtocolState::Armed && self.bytes_read < self.byte_count {
                self.pending_read_word = self.sfp.read_word(self.last_device, self.eeprom_ptr);
                if self.force_nack {
                    self.pending_read_word = 0xFFFF_FFFF;
                    self.force_nack = false;
                }
                self.eeprom_ptr = self.eeprom_ptr.wrapping_add(4);
                self.bytes_read = self.bytes_read + 4;
                if self.bytes_read >= self.byte_count {
                    self.protocol = ProtocolState::Idle;
                }
            }
            self.state = BusState::Busy;
            self.busy_counter = BSC_BUSY_TICKS;
        }
        self.raw_store[0] = val & 0x07FF_FFFF;
    }

    fn peek(&self, addr: u32) -> (r: u32)
        requires
            addr >= 0x0100_0000,
        ensures
            r == self@.word_at(addr),
    {
        let off: u32 = addr - 0x01000000;
        if off == REG_BASE_ADDR {
            self.pending_read_word
        } else if off == REG_STATUS {
            if self.state == BusState::Busy {
                self.raw_store[4] | 0x8000_0000
            } else {
                self.raw_store[4] & !0x8000_0000
            }
        } else {
            match self.store_idx(off) {
                Some(i) => self.raw_store[i],
                None => 0,
            }
        }
    }

    pub fn peek_word(&self, addr: u32) -> (r: Result<u32, Exception>)
        requires
            addr >= 0x0100_0000,
        ensures
            r == Ok::<u32, Exception>(self@.word_at(addr)),
    {
        Ok(self.peek(addr))
    }

    pub fn read_word(&mut self, addr: u32) -> (r: Result<u32, Exception>)
        requires
            addr >= 0x0100_0000,
        ensures
            r == Ok::<u32, Exception>(old(self)@.word_at(addr)),
            final(self)@ == old(self)@.after_read(addr),
            old(self).wf() ==> final(self).wf(),
    {
        let val: u32 = self.peek(addr);
        let off: u32 = addr - 0x01000000;
        if off == REG_BASE_ADDR && self.state == BusState::Done {
            self.state = BusState::Idle;
        }
        Ok(val)
    }

    pub fn write_word(&mut self, addr: u32, val: u32) -> (r: Result<(), Exception>)
        requires
            old(self).wf(),
            addr >= 0x0100_0000,
        ensures
            r == Ok::<(), Exception>(()),
            final(self).wf(),
            final(self)@ == old(self)@.after_write(addr, val),
    {
        let off: u32 = addr - 0x01000000;
        match self.store_idx(off) {
            Some(i) => {
                self.raw_store[i] = val;
            },
            None => {},
        }
        if off == REG_CMD {
            self.issue_command(val);
        } else if off == REG_BASE_ADDR {
            self.pending_sub_addr = (val & 0xFFFF) as u16;
        } else if off == REG_STATUS {
            self.raw_store[4] = val & !1;
            if val & 0x0040_0000 != 0 && self.protocol == ProtocolState::SubAddrLatched {
                proof {
                    crate::bits::lemma_field_bounds(val >> 3);
                }
                let bc: u16 = ((val >> 3) & 0x7FF) as u16;
                if bc > 0 {
                    self.byte_count = bc;
                    self.eeprom_ptr = self.sub_addr;
                    self.bytes_read = 0;
                    self.protocol = ProtocolState::Armed;
                    self.state = BusState::Busy;
                    self.busy_counter = BSC_BUSY_TICKS;
                }
            }
        }
        Ok(())
    }

    pub fn tick(&mut self, _cpu_instructions: u64)
        ensures
            final(self)@ == old(self)@.after_tick(),
            old(self).wf() ==> final(self).wf(),
    {
        if self.state == BusState::Busy && self.busy_counter > 0 {
            self.busy_counter = self.busy_counter - 1;
            if self.busy_counter == 0 {
                self.state = BusState::Done;
            }
        }
    }

    pub fn reset_cold(&mut self)
        ensures
            final(self).wf(),
            final(self)@ == BscState::cleared(SfpState::placeholder()),
    {
        self.state = BusState::Idle;
        self.busy_counter = 0;
        self.protocol = ProtocolState::Idle;
        self.pending_sub_addr = 0;
        self.sub_addr = 0;
        self.eeprom_ptr = 0;
        self.byte_count = 0;
        self.bytes_read = 0;
        self.last_device = 0;
        self.pending_read_word = 0;
        self.force_nack = false;
        self.raw_store = [0u32; 6];
        self.sfp.reset_to_snapshot();
        assert(self.raw_store@ =~= Seq::new(6, |i: int| 0u32));
    }

    /// A warm start is a cold one: the master keeps nothing.
    pub fn reset_warm(&mut self)
        ensures
            final(self).wf(),
            final(self)@ == BscState::cleared(SfpState::placeholder()),
    {
        self.reset_cold();
    }

    pub fn snapshot(&self) -> (r: PeripheralSnapshot)
        ensures
            r == PeripheralSnapshot::Bsc(
                BscSnapshot {
                    busy: self@.state is Busy,
                    last_device_addr: if self@.last_device == 0 {
                        0xA0
                    } else {
                        0xA2
                    },
                    last_word_addr: self@.eeprom_ptr,
                },
            ),
    {
        PeripheralSnapshot::Bsc(
            BscSnapshot {
                busy: self.state == BusState::Busy,
                last_device_addr: if self.last_device == 0 {
                    0xA0
                } else {
                    0xA2
                },
                last_word_addr: self.eeprom_ptr,
            },
        )
    }

    fn cap(v: u32) -> (r: u16)
        ensures
            r == capped(v as int),
    {
        if v <= 0xFFFF {
            v as u16
        } else {
            0xFFFF
        }
    }

    /// Act on an event addressed to the master or the module behind it; refuse
    /// any other.
    pub fn inject_event(&mut self, event: &PeripheralEvent) -> (r: Result<(), PeripheralError>)
        requires
            old(self).wf(),
            event matches PeripheralEvent::Sfp(SfpEvent::SetTxPowerUw(uw)) ==> uw * 10 <= u32::MAX,
            event matches PeripheralEvent::Sfp(SfpEvent::SetRxPowerUw(uw)) ==> uw * 10 <= u32::MAX,
        ensures
            final(self).wf(),
            r is Ok <==> old(self)@.after_event(*event) is Some,
            r is Err ==> r == Err::<(), PeripheralError>(PeripheralError::UnsupportedEvent),
            final(self)@ == (match old(self)@.after_event(*event) {
                Some(s) => s,
                None => old(self)@,
            }),
    {
        match event {
            PeripheralEvent::Bsc(ev) => {
                match ev {
                    BscEvent::ForceNack => {
                        self.force_nack = true;
                    },
                    BscEvent::Reset => {
                        self.state = BusState::Idle;
                        self.busy_counter = 0;
                    },
                }
                Ok(())
            },
            PeripheralEvent::Sfp(ev) => {
                match ev {
                    SfpEvent::SetTemperatureC256(v) => {
                        self.sfp.ddm.temperature_c256 = *v;
                    },
                    SfpEvent::SetVccUv(uv) => {
                        self.sfp.ddm.vcc_100uv = Self::cap(*uv / 100);
                    },
                    SfpEvent::SetTxBiasUa(ua) => {
                        self.sfp.ddm.tx_bias_2ua = Self::cap(*ua / 2);
                    },
                    SfpEvent::SetTxPowerUw(uw) => {
                        self.sfp.ddm.tx_power_01uw = Self::cap(*uw * 10);
                    },
                    SfpEvent::SetRxPowerUw(uw) => {
                        self.sfp.ddm.rx_power_01uw = Self::cap(*uw * 10);
                    },
                    SfpEvent::SetVendorName(n) => self.sfp.set_vendor_name(*n),
                    SfpEvent::SetSerialNumber(n) => self.sfp.set_serial_number(*n),
                    SfpEvent::SetPartNumber(n) => self.sfp.set_part_number(*n),
                }
                Ok(())
            },
            _ => Err(PeripheralError::UnsupportedEvent),
        }
    }
}

/// A command word that only triggers a read.
pub open spec fn is_read_trigger(val: u32) -> bool {
    command_flags(val) & 2 == 0 && command_flags(val) & 1 != 0
}

/// Whether every word of a list does.
pub open spec fn are_read_triggers(vals: Seq<u32>) -> bool {
    forall|i: int| 0 <= i < vals.len() ==> is_read_trigger(#[trigger] vals[i])
}

/// The master after a run of command words.
pub open spec fn after_commands(s: BscState, vals: Seq<u32>) -> BscState
    decreases vals.len(),
{
    if vals.len() == 0 {
        s
    } else {
        after_commands(s, vals.drop_last()).after_write(BSC_BASE, vals.last())
    }
}

/// The master once a burst is open: the sub-address is written and latched, and
/// the burst armed.
pub open spec fn opened(s: BscState, sub: u32, latch: u32, arm: u32) -> BscState {
    s.after_write(0x0100_014C, sub).after_write(BSC_BASE, latch).after_write(0x0100_0150, arm)
}

/// The pointer a number of words past a sub-address; it wraps.
pub open spec fn pointer_past(sub: u32, words: nat) -> u16 {
    (((sub & 0xFFFF) + 4 * words) % 0x1_0000) as u16
}

/// Where a burst stands after a run of triggers.
proof fn lemma_burst_stands(s: BscState, sub: u32, vals: Seq<u32>)
    requires
        s.raw.len() == 6,
        s.protocol is Armed,
        s.bytes_read == 0,
        0 < s.byte_count <= 0x7FF,
        s.eeprom_ptr == pointer_past(sub, 0),
        !s.force_nack,
        are_read_triggers(vals),
    ensures
        ({
            let b = after_commands(s, vals);
            &&& b.raw.len() == 6
            &&& b.sfp == s.sfp
            &&& !b.force_nack
            &&& b.byte_count == s.byte_count
            &&& 4 * vals.len() < s.byte_count ==> b.protocol is Armed && b.bytes_read == 4
                * vals.len() && b.eeprom_ptr == pointer_past(sub, vals.len())
            &&& 4 * vals.len() >= s.byte_count ==> b.protocol is Idle
        }),
    decreases vals.len(),
{
    if vals.len() > 0 {
        let init = vals.drop_last();
        assert forall|i: int| 0 <= i < init.len() implies is_read_trigger(#[trigger] init[i]) by {
            assert(vals[i] == init[i]);
        }
        lemma_burst_stands(s, sub, init);
        assert(is_read_trigger(vals[vals.len() - 1]));
        assert(vals.last() == vals[vals.len() - 1]);
    }
}

/// A burst answers word for word. Once the sub-address is written and latched
/// and `n` bytes are armed, the trigger after `k` others answers the word `4k`
/// past the sub-address while `4k < n`; the pointer wraps. From then on a
/// trigger leaves standing what the one before left.
pub proof fn law_burst_reads_sequential_words(
    s: BscState,
    sub: u32,
    latch: u32,
    arm: u32,
    triggers: Seq<u32>,
    val: u32,
)
    requires
        s.raw.len() == 6,
        !s.force_nack,
        command_flags(latch) & 2 != 0,
        arm & 0x0040_0000 != 0,
        burst_length(arm) > 0,
        are_read_triggers(triggers),
        is_read_trigger(val),
    ensures
        ({
            let before = after_commands(opened(s, sub, latch, arm), triggers);
            let after = before.after_write(BSC_BASE, val);
            if 4 * triggers.len() < burst_length(arm) {
                after.word_at(0x0100_014C) == s.sfp.word(
                    (val & 1) as u8,
                    pointer_past(sub, triggers.len()),
                )
            } else {
                after.word_at(0x0100_014C) == before.word_at(0x0100_014C)
            }
        }),
{
    crate::bits::lemma_field_bounds(arm >> 3);
    crate::bits::lemma_field_bounds(sub);
    let start = opened(s, sub, latch, arm);
    assert(start.protocol is Armed);
    lemma_burst_stands(start, sub, triggers);
}

/// Without the latch and the arming no run of triggers changes DATA.
pub proof fn law_triggers_alone_change_nothing(s: BscState, vals: Seq<u32>)
    requires
        s.raw.len() == 6,
        !(s.protocol is Armed),
        are_read_triggers(vals),
    ensures
        after_commands(s, vals).raw.len() == 6,
        after_commands(s, vals).protocol == s.protocol,
        after_commands(s, vals).word_at(0x0100_014C) == s.word_at(0x0100_014C),
    decreases vals.len(),
{
    if vals.len() > 0 {
        let init = vals.drop_last();
        assert forall|i: int| 0 <= i < init.len() implies is_read_trigger(#[trigger] init[i]) by {
            assert(vals[i] == init[i]);
        }
        law_triggers_alone_change_nothing(s, init);
        assert(is_read_trigger(vals[vals.len() - 1]));
        assert(vals.last() == vals[vals.len() - 1]);
    }
}

/// Reading a word, and a tick, leave an open burst where it stands.
pub proof fn law_reads_and_ticks_leave_the_burst(s: BscState, addr: u32)
    ensures
        s.after_read(addr) == (BscState { state: s.after_read(addr).state, ..s }),
        s.after_tick() == (BscState {
            state: s.after_tick().state,
            busy_counter: s.after_tick().busy_counter,
            ..s
        }),
{
}

/// A trigger with no open burst leaves the last word standing.
pub proof fn law_trigger_without_burst_is_stale(s: BscState, val: u32)
    requires
        s.raw.len() == 6,
        is_read_trigger(val),
        !s.burst_open(),
    ensures
        s.after_write(BSC_BASE, val).word_at(0x0100_014C) == s.word_at(0x0100_014C),
{
}

/// A burst that has moved all its bytes is closed.
pub proof fn law_exhausted_burst_is_closed(s: BscState)
    requires
        s.burst_open(),
        s.bytes_read + 4 >= s.byte_count,
        s.byte_count <= 0x7FF,
    ensures
        !s.after_word_moved().burst_open(),
{
}

/// DATA does not echo what was written to it, and the start bit of STAT is
/// never held.
pub proof fn law_data_does_not_echo(s: BscState, val: u32)
    requires
        s.raw.len() == 6,
    ensures
        s.after_write(0x0100_014C, val).word_at(0x0100_014C) == s.word_at(0x0100_014C),
        s.after_write(0x0100_0150, val).word_at(0x0100_0150) & 1 == 0,
{
    assert(((val & !1u32) | 0x8000_0000u32) & 1 == 0 && ((val & !1u32) & !0x8000_0000u32) & 1 == 0)
        by (bit_vector);
}

/// The busy bit a command raises is gone after two ticks and not before.
pub proof fn law_busy_lasts_two_ticks(s: BscState)
    ensures
        s.busied().after_tick().state is Busy,
        s.busied().after_tick().after_tick().state is Done,
{
}

/// A reading that follows its event lands in its own register, in that
/// register's unit, and leaves the other readings and both pages alone.
pub proof fn law_events_set_their_own_reading(s: BscState, t: i16, u: u32)
    ensures
        ({
            let was = s.sfp.ddm;
            let temp = s.after_event(PeripheralEvent::Sfp(SfpEvent::SetTemperatureC256(t)))->0;
            let vcc = s.after_event(PeripheralEvent::Sfp(SfpEvent::SetVccUv(u)))->0;
            let bias = s.after_event(PeripheralEvent::Sfp(SfpEvent::SetTxBiasUa(u)))->0;
            let tx = s.after_event(PeripheralEvent::Sfp(SfpEvent::SetTxPowerUw(u)))->0;
            let rx = s.after_event(PeripheralEvent::Sfp(SfpEvent::SetRxPowerUw(u)))->0;
            &&& temp.sfp.ddm.temperature_c256 == t
            &&& u / 100 <= 0xFFFF ==> vcc.sfp.ddm.vcc_100uv == u / 100
            &&& u / 2 <= 0xFFFF ==> bias.sfp.ddm.tx_bias_2ua == u / 2
            &&& u <= 6553 ==> tx.sfp.ddm.tx_power_01uw == 10 * u
            &&& u <= 6553 ==> rx.sfp.ddm.rx_power_01uw == 10 * u
            &&& u / 100 > 0xFFFF ==> vcc.sfp.ddm.vcc_100uv == 0xFFFF
            &&& u / 2 > 0xFFFF ==> bias.sfp.ddm.tx_bias_2ua == 0xFFFF
            &&& u > 6553 ==> tx.sfp.ddm.tx_power_01uw == 0xFFFF
            &&& u > 6553 ==> rx.sfp.ddm.rx_power_01uw == 0xFFFF
            &&& others_kept(was, temp.sfp.ddm, 0) && others_kept(was, vcc.sfp.ddm, 1)
            &&& others_kept(was, bias.sfp.ddm, 2) && others_kept(was, tx.sfp.ddm, 3)
            &&& others_kept(was, rx.sfp.ddm, 4)
            &&& temp == s.with_ddm(temp.sfp.ddm) && vcc == s.with_ddm(vcc.sfp.ddm)
            &&& bias == s.with_ddm(bias.sfp.ddm) && tx == s.with_ddm(tx.sfp.ddm)
            &&& rx == s.with_ddm(rx.sfp.ddm)
            &&& s.with_ddm(was) == s && s.with_ddm(rx.sfp.ddm).sfp.a0 == s.sfp.a0
            &&& s.with_ddm(rx.sfp.ddm).sfp.a2 == s.sfp.a2
        }),
{
    assert(s.with_ddm(s.sfp.ddm) =~= s);
}

/// Whether all readings but one are what they were: temperature, supply, bias,
/// transmit power and receive power, in this order.
pub open spec fn others_kept(was: Ddm, now: Ddm, but: int) -> bool {
    &&& but != 0 ==> now.temperature_c256 == was.temperature_c256
    &&& but != 1 ==> now.vcc_100uv == was.vcc_100uv
    &&& but != 2 ==> now.tx_bias_2ua == was.tx_bias_2ua
    &&& but != 3 ==> now.tx_power_01uw == was.tx_power_01uw
    &&& but != 4 ==> now.rx_power_01uw == was.rx_power_01uw
}

/// A text event fills the sixteen octets of its own field of the identity page
/// and no other octet of the module.
pub proof fn law_text_events_fill_their_field(s: BscState, text: [u8; 16], i: int)
    requires
        s.sfp.a0.len() == 256,
        0 <= i < 256,
    ensures
        ({
            let vendor = s.after_event(PeripheralEvent::Sfp(SfpEvent::SetVendorName(text)))->0.sfp;
            let part = s.after_event(PeripheralEvent::Sfp(SfpEvent::SetPartNumber(text)))->0.sfp;
            let serial = s.after_event(
                PeripheralEvent::Sfp(SfpEvent::SetSerialNumber(text)),
            )->0.sfp;
            &&& vendor.a0.subrange(20, 36) == text@
            &&& part.a0.subrange(40, 56) == text@
            &&& serial.a0.subrange(68, 84) == text@
            &&& (i < 20 || i >= 36) ==> vendor.a0[i] == s.sfp.a0[i]
            &&& (i < 40 || i >= 56) ==> part.a0[i] == s.sfp.a0[i]
            &&& (i < 68 || i >= 84) ==> serial.a0[i] == s.sfp.a0[i]
            &&& vendor.a2 == s.sfp.a2 && part.a2 == s.sfp.a2 && serial.a2 == s.sfp.a2
            &&& vendor.ddm == s.sfp.ddm && part.ddm == s.sfp.ddm && serial.ddm == s.sfp.ddm
        }),
{
    let vendor = s.after_event(PeripheralEvent::Sfp(SfpEvent::SetVendorName(text)))->0.sfp;
    let part = s.after_event(PeripheralEvent::Sfp(SfpEvent::SetPartNumber(text)))->0.sfp;
    let serial = s.after_event(PeripheralEvent::Sfp(SfpEvent::SetSerialNumber(text)))->0.sfp;
    assert(vendor.a0.subrange(20, 36) =~= text@);
    assert(part.a0.subrange(40, 56) =~= text@);
    assert(serial.a0.subrange(68, 84) =~= text@);
}

/// A forced refusal shows as all ones on the next word of a burst, once. The
/// word after it is the module's again.
pub proof fn law_forced_refusal_shows_once(s: BscState)
    requires
        s.protocol is Armed,
        s.bytes_read + 4 < s.byte_count,
        s.byte_count <= 0x7FF,
        s.raw.len() == 6,
    ensures
        ({
            let trigger = 0x0800_0000u32;
            let forced = s.after_event(PeripheralEvent::Bsc(BscEvent::ForceNack))->0;
            let first = forced.after_write(0x0100_0140, trigger);
            let second = first.after_write(0x0100_0140, trigger);
            &&& first.word_at(0x0100_014C) == 0xFFFF_FFFF
            &&& second.word_at(0x0100_014C) == s.sfp.word(0, s.eeprom_ptr.wrapping_add(4))
            &&& !first.force_nack
        }),
{
    let trigger = 0x0800_0000u32;
    crate::bits::lemma_fields(trigger);
    crate::bits::lemma_fields(trigger >> 27);
    assert(command_flags(trigger) == 1);
    crate::bits::lemma_fields(1);
}

/// A bus reset ends a transfer: the busy bit reads clear, and no more.
pub proof fn law_bus_reset_ends_the_transfer(s: BscState)
    ensures
        ({
            let after = s.after_event(PeripheralEvent::Bsc(BscEvent::Reset))->0;
            &&& !(after.state is Busy)
            &&& after.protocol == s.protocol && after.sfp == s.sfp && after.raw == s.raw
            &&& after.pending_read_word == s.pending_read_word
            &&& after.force_nack == s.force_nack
        }),
{
}

/// The flags a command word carries in its top bits: the latch in bit 28, the
/// read trigger in bit 27. The page is its lowest bit.
pub proof fn law_command_bits_have_their_places(s: BscState, val: u32)
    requires
        s.raw.len() == 6,
    ensures
        ({
            let after = s.after_write(0x0100_0140, val);
            let latch = (val / 0x1000_0000) % 2 == 1;
            let trigger = (val / 0x0800_0000) % 2 == 1;
            &&& after.last_device == val % 2
            &&& after.word_at(0x0100_0140) == val % 0x0800_0000
            &&& latch ==> after.protocol is SubAddrLatched && after.sub_addr == s.pending_sub_addr
            &&& (latch || trigger) ==> after.state is Busy && after.busy_counter == 2
            &&& !latch && !trigger ==> after.state == s.state && after.protocol == s.protocol
                && after.pending_read_word == s.pending_read_word
            &&& !latch ==> after.sub_addr == s.sub_addr
        }),
{
    crate::bits::lemma_fields(val);
    crate::bits::lemma_fields(val >> 27);
    let f = (val >> 27) & 0x1F;
    crate::bits::lemma_fields(f);
}

/// Arming takes the length from bits 3 to 13, and only with bit 22 set on a
/// latched sub-address and a length that is not zero.
pub proof fn law_arming_takes_its_length(s: BscState, val: u32)
    requires
        s.raw.len() == 6,
    ensures
        ({
            let after = s.after_write(0x0100_0150, val);
            let arms = (val / 0x40_0000) % 2 == 1 && s.protocol is SubAddrLatched && (val / 8)
                % 0x800 != 0;
            &&& arms ==> after.protocol is Armed && after.byte_count == (val / 8) % 0x800
                && after.bytes_read == 0 && after.eeprom_ptr == s.sub_addr && after.state is Busy
            &&& !arms ==> after.protocol == s.protocol && after.byte_count == s.byte_count
                && after.state == s.state
        }),
{
    crate::bits::lemma_fields(val);
    crate::bits::lemma_fields(val >> 3);
}

/// The sub-address a write to DATA leaves is its low half.
pub proof fn law_data_write_sets_the_sub_address(s: BscState, val: u32)
    requires
        s.raw.len() == 6,
    ensures
        s.after_write(0x0100_014C, val).pending_sub_addr == val % 0x1_0000,
        s.after_write(0x0100_014C, val).pending_read_word == s.pending_read_word,
        s.after_write(0x0100_014C, val).protocol == s.protocol,
{
    crate::bits::lemma_fields(val);
}

/// The busy bit is the top bit of STAT, up exactly while a transfer runs.
pub proof fn law_busy_bit_shows_the_transfer(s: BscState)
    requires
        s.raw.len() == 6,
    ensures
        s.word_at(0x0100_0150) >= 0x8000_0000 <==> s.state is Busy,
{
    let x = s.raw[4];
    crate::bits::lemma_set_bits(x, 0x8000_0000);
    crate::bits::lemma_clear_bits(x, 0x8000_0000);
    crate::bits::lemma_fields(x | 0x8000_0000);
    crate::bits::lemma_fields(x & !0x8000_0000);
}

} // verus!
