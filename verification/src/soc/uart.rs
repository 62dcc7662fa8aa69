//! UART block at `0x00FC1000`: one controller mirrored eight times, every
//! `0x20` bytes.
//!
//! | Offset in the channel | Register                                        |
//! |:----------------------|:------------------------------------------------|
//! | `0x10`                | data: store sends, load takes a received byte   |
//! | `0x14`                | control; loads give the status                  |
//! | `0x18`                | baud divisor, low                               |
//! | `0x1C`                | baud divisor, high                              |

use vstd::prelude::*;

use crate::cpu::exception::Exception;

verus! {

pub const UART_RANGE_START: u32 = 0x00FC_1000;

/// Eight channels of `0x20` bytes.
pub const UART_RANGE_SIZE: u32 = 0x100;

pub const UART_CHANNEL_SIZE: u32 = 0x20;

/// Where the known registers of a channel start.
pub const UART_REG_OFFSET: u32 = 0x10;

pub const UART_DATA: u32 = 0x00;

pub const UART_STATUS: u32 = 0x04;

pub const UART_BAUD_LO: u32 = 0x08;

pub const UART_BAUD_HI: u32 = 0x0C;

/// Status bit 7: the transmitter is done, always.
pub const STATUS_TX_DONE: u32 = 0x80;

/// Status bits 7 and 5: done, and a received byte waits.
pub const STATUS_RX_READY: u32 = 0xA0;

pub open spec fn uart_claims(addr: u32) -> bool {
    UART_RANGE_START <= addr < UART_RANGE_START + UART_RANGE_SIZE
}

/// The register an address of the block names; none below the known ones.
pub open spec fn uart_register(addr: u32) -> Option<u32> {
    let off = (addr - UART_RANGE_START) % 0x20;
    if off >= UART_REG_OFFSET {
        Some((off - UART_REG_OFFSET) as u32)
    } else {
        None
    }
}

/// The UART, as values.
#[verifier::ext_equal]
pub struct UartState {
    pub control: u32,
    pub baud_lo: u32,
    pub baud_hi: u32,
    pub rx: Seq<u8>,
    pub tx: Seq<u8>,
    pub irq_mask: u32,
}

impl UartState {
    pub open spec fn cleared(irq_mask: u32) -> UartState {
        UartState {
            control: 0,
            baud_lo: 0,
            baud_hi: 0,
            rx: Seq::empty(),
            tx: Seq::empty(),
            irq_mask,
        }
    }

    /// The word a register reads as.
    pub open spec fn register(self, reg: u32) -> u32 {
        if reg == UART_DATA {
            if self.rx.len() > 0 {
                self.rx[0] as u32
            } else {
                0
            }
        } else if reg == UART_STATUS {
            if self.rx.len() > 0 {
                STATUS_RX_READY
            } else {
                STATUS_TX_DONE
            }
        } else if reg == UART_BAUD_LO {
            self.baud_lo
        } else if reg == UART_BAUD_HI {
            self.baud_hi
        } else {
            0
        }
    }

    /// The UART after a register is read: the data register gives a received
    /// byte away.
    pub open spec fn after_read(self, reg: u32) -> UartState {
        if reg == UART_DATA && self.rx.len() > 0 {
            UartState { rx: self.rx.skip(1), ..self }
        } else {
            self
        }
    }

    /// The UART after a register is written.
    pub open spec fn after_write(self, reg: u32, val: u32) -> UartState {
        if reg == UART_DATA {
            UartState { tx: self.tx.push(val as u8), ..self }
        } else if reg == UART_STATUS {
            UartState { control: val, ..self }
        } else if reg == UART_BAUD_LO {
            UartState { baud_lo: val, ..self }
        } else if reg == UART_BAUD_HI {
            UartState { baud_hi: val, ..self }
        } else {
            self
        }
    }

    /// The word an address reads as.
    pub open spec fn word_at(self, addr: u32) -> u32 {
        match uart_register(addr) {
            Some(reg) => self.register(reg),
            None => 0,
        }
    }

    pub open spec fn after_read_at(self, addr: u32) -> UartState {
        match uart_register(addr) {
            Some(reg) => self.after_read(reg),
            None => self,
        }
    }

    pub open spec fn after_write_at(self, addr: u32, val: u32) -> UartState {
        match uart_register(addr) {
            Some(reg) => self.after_write(reg, val),
            None => self,
        }
    }

    /// The interrupt lines it raises: its own while a byte waits.
    pub open spec fn irq(self) -> u32 {
        if self.rx.len() > 0 {
            self.irq_mask
        } else {
            0
        }
    }
}

#[derive(Debug)]
pub struct Uart {
    pub control: u32,
    pub baud_div_lo: u32,
    pub baud_div_hi: u32,
    /// Received bytes that wait, oldest first.
    pub rx: Vec<u8>,
    /// Bytes sent so far.
    pub tx_log: Vec<u8>,
    /// Interrupt lines raised while a byte waits.
    pub irq_mask: u32,
}

impl View for Uart {
    type V = UartState;

    open spec fn view(&self) -> UartState {
        UartState {
            control: self.control,
            baud_lo: self.baud_div_lo,
            baud_hi: self.baud_div_hi,
            rx: self.rx@,
            tx: self.tx_log@,
            irq_mask: self.irq_mask,
        }
    }
}

impl Clone for Uart {
    fn clone(&self) -> (r: Self)
        ensures
            r@ == self@,
    {
        let r = Uart {
            control: self.control,
            baud_div_lo: self.baud_div_lo,
            baud_div_hi: self.baud_div_hi,
            rx: self.rx.clone(),
            tx_log: self.tx_log.clone(),
            irq_mask: self.irq_mask,
        };
        assert(r.rx@ =~= self.rx@);
        assert(r.tx_log@ =~= self.tx_log@);
        assert(r@ =~= self@);
        r
    }
}

impl Uart {
    pub fn new() -> (r: Self)
        ensures
            r@ == UartState::cleared(0),
    {
        Uart {
            control: 0,
            baud_div_lo: 0,
            baud_div_hi: 0,
            rx: Vec::new(),
            tx_log: Vec::new(),
            irq_mask: 0,
        }
    }

    pub fn claims(&self, addr: u32) -> (r: bool)
        ensures
            r == uart_claims(addr),
    {
        addr >= UART_RANGE_START && addr < UART_RANGE_START + UART_RANGE_SIZE
    }

    /// Put a received byte at the end of those that wait.
    pub fn push_rx_byte(&mut self, byte: u8)
        ensures
            final(self)@ == (UartState { rx: old(self)@.rx.push(byte), ..old(self)@ }),
    {
        self.rx.push(byte);
    }

    /// The bytes sent so far.
    pub fn tx_log_bytes(&self) -> (r: Vec<u8>)
        ensures
            r@ == self@.tx,
    {
        vstd::slice::slice_to_vec(self.tx_log.as_slice())
    }

    pub fn clear_tx_log(&mut self)
        ensures
            final(self)@ == (UartState { tx: Seq::empty(), ..old(self)@ }),
    {
        self.tx_log = Vec::new();
        assert(self@ =~= (UartState { tx: Seq::empty(), ..old(self)@ }));
    }

    pub fn irq_pending(&self) -> (r: u32)
        ensures
            r == self@.irq(),
    {
        if self.rx.len() > 0 {
            self.irq_mask
        } else {
            0
        }
    }

    fn register_of(addr: u32) -> (r: Option<u32>)
        requires
            uart_claims(addr),
        ensures
            r == uart_register(addr),
    {
        let off: u32 = (addr - UART_RANGE_START) % UART_CHANNEL_SIZE;
        if off >= UART_REG_OFFSET {
            Some(off - UART_REG_OFFSET)
        } else {
            None
        }
    }

    pub fn peek_word(&self, addr: u32) -> (r: Result<u32, Exception>)
        requires
            uart_claims(addr),
        ensures
            r == Ok::<u32, Exception>(self@.word_at(addr)),
    {
        match Self::register_of(addr) {
            None => Ok(0),
            Some(reg) => {
                if reg == UART_DATA {
                    if self.rx.len() > 0 {
                        Ok(self.rx[0] as u32)
                    } else {
                        Ok(0)
                    }
                } else if reg == UART_STATUS {
                    if self.rx.len() > 0 {
                        Ok(STATUS_RX_READY)
                    } else {
                        Ok(STATUS_TX_DONE)
                    }
                } else if reg == UART_BAUD_LO {
                    Ok(self.baud_div_lo)
                } else if reg == UART_BAUD_HI {
                    Ok(self.baud_div_hi)
                } else {
                    Ok(0)
                }
            },
        }
    }

    pub fn read_word(&mut self, addr: u32) -> (r: Result<u32, Exception>)
        requires
            uart_claims(addr),
        ensures
            r == Ok::<u32, Exception>(old(self)@.word_at(addr)),
            final(self)@ == old(self)@.after_read_at(addr),
    {
        let r = self.peek_word(addr);
        match Self::register_of(addr) {
            Some(reg) => {
                if reg == UART_DATA && self.rx.len() > 0 {
                    self.rx.remove(0);
                    assert(self.rx@ =~= old(self).rx@.skip(1));
                }
            },
            None => {},
        }
        r
    }

    pub fn write_word(&mut self, addr: u32, val: u32) -> (r: Result<(), Exception>)
        requires
            uart_claims(addr),
        ensures
            r == Ok::<(), Exception>(()),
            final(self)@ == old(self)@.after_write_at(addr, val),
    {
        match Self::register_of(addr) {
            None => {},
            Some(reg) => {
                if reg == UART_DATA {
                    self.tx_log.push(val as u8);
                } else if reg == UART_STATUS {
                    self.control = val;
                } else if reg == UART_BAUD_LO {
                    self.baud_div_lo = val;
                } else if reg == UART_BAUD_HI {
                    self.baud_div_hi = val;
                }
            },
        }
        Ok(())
    }

    /// The low byte of the register an address names.
    pub fn read_byte(&mut self, addr: u32) -> (r: Result<u8, Exception>)
        requires
            uart_claims(addr),
        ensures
            r == Ok::<u8, Exception>(old(self)@.word_at(addr) as u8),
            final(self)@ == old(self)@.after_read_at(addr),
    {
        match self.read_word(addr) {
            Ok(v) => Ok(v as u8),
            Err(e) => Err(e),
        }
    }

    pub fn write_byte(&mut self, addr: u32, val: u8) -> (r: Result<(), Exception>)
        requires
            uart_claims(addr),
        ensures
            r == Ok::<(), Exception>(()),
            final(self)@ == old(self)@.after_write_at(addr, val as u32),
    {
        self.write_word(addr, val as u32)
    }

    /// Nothing waits and nothing was sent.
    pub fn reset(&mut self)
        ensures
            final(self)@ == UartState::cleared(old(self)@.irq_mask),
    {
        let irq_mask: u32 = self.irq_mask;
        *self = Uart::new();
        self.irq_mask = irq_mask;
    }
}

/// Received bytes come out in the order they went in, each of them once.
pub proof fn law_received_bytes_keep_their_order(s: UartState, byte: u8)
    ensures
        ({
            let fed = UartState { rx: s.rx.push(byte), ..s };
            &&& s.rx.len() == 0 ==> fed.register(UART_DATA) == byte as u32 && fed.after_read(
                UART_DATA,
            ).rx == s.rx
            &&& s.rx.len() > 0 ==> fed.register(UART_DATA) == s.register(UART_DATA)
                && fed.after_read(UART_DATA).rx == s.after_read(UART_DATA).rx.push(byte)
        }),
{
    let fed = UartState { rx: s.rx.push(byte), ..s };
    if s.rx.len() > 0 {
        assert(s.rx.push(byte).skip(1) =~= s.rx.skip(1).push(byte));
    } else {
        assert(s.rx.push(byte).skip(1) =~= s.rx);
    }
}

/// The block is one controller, mirrored every 32 bytes: an address and the one
/// 32 bytes on read and write the same.
pub proof fn law_channels_are_mirrors(s: UartState, addr: u32, val: u32)
    requires
        0x00FC_1000 <= addr < 0x00FC_10E0,
    ensures
        s.word_at((addr + 0x20) as u32) == s.word_at(addr),
        s.after_read_at((addr + 0x20) as u32) == s.after_read_at(addr),
        s.after_write_at((addr + 0x20) as u32, val) == s.after_write_at(addr, val),
        uart_claims(addr) && uart_claims((addr + 0x1F) as u32),
{
}

/// A word stored in the data register is sent: its low byte is the last one on
/// the line. The other registers keep theirs, and the status one is read only.
pub proof fn law_stores_send_or_set(s: UartState, val: u32)
    ensures
        s.after_write_at(0x00FC_1010, val).tx == s.tx.push((val % 0x100) as u8),
        s.after_write_at(0x00FC_1010, val).rx == s.rx,
        s.after_write_at(0x00FC_1014, val).control == val,
        s.after_write_at(0x00FC_1014, val).word_at(0x00FC_1014) == s.word_at(0x00FC_1014),
        s.after_write_at(0x00FC_1018, val).word_at(0x00FC_1018) == val,
        s.after_write_at(0x00FC_101C, val).word_at(0x00FC_101C) == val,
        s.after_write_at(0x00FC_1018, val).word_at(0x00FC_101C) == s.word_at(0x00FC_101C),
        s.after_write_at(0x00FC_101C, val).word_at(0x00FC_1018) == s.word_at(0x00FC_1018),
        s.after_write_at(0x00FC_1014, val).tx == s.tx,
        s.after_write_at(0x00FC_1018, val).tx == s.tx,
        s.after_write_at(0x00FC_101C, val).tx == s.tx,
{
    crate::bits::lemma_fields(val);
}

/// A waiting byte shows in the data register, in the status and on the
/// interrupt line, and taking it takes it only from the front. Without one the
/// data register reads zero.
pub proof fn law_waiting_byte_shows(s: UartState)
    ensures
        s.rx.len() > 0 ==> s.word_at(0x00FC_1010) == s.rx[0] && s.word_at(0x00FC_1014) == 0xA0
            && s.irq() == s.irq_mask && s.after_read_at(0x00FC_1010).rx == s.rx.subrange(
            1,
            s.rx.len() as int,
        ),
        s.rx.len() == 0 ==> s.word_at(0x00FC_1010) == 0 && s.word_at(0x00FC_1014) == 0x80 && s.irq()
            == 0 && s.after_read_at(0x00FC_1010) == s,
        s.after_read_at(0x00FC_1014) == s,
        s.after_read_at(0x00FC_1018) == s,
        s.after_read_at(0x00FC_101C) == s,
        s.after_read_at(0x00FC_1010).tx == s.tx,
{
    if s.rx.len() > 0 {
        assert(s.rx.skip(1) =~= s.rx.subrange(1, s.rx.len() as int));
    }
}

} // verus!
