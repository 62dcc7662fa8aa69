//! The boot-loader UART.
//!
//! | Offset | Register                                        |
//! |:-------|:------------------------------------------------|
//! | `0x00` | control                                         |
//! | `0x04` | baud divisor, low                               |
//! | `0x08` | baud divisor, high                              |
//! | `0x28` | transmit data                                   |
//! | `0x2C` | status: bit 7 transmit done, bit 5 receive ready |
//!
//! The model does not own a serial line. A store to the transmit register
//! hands the byte back to the caller, who puts it on the line.

use vstd::prelude::*;

use crate::cpu::exception::Exception;

verus! {

pub const UART_CONTROL: u32 = 0x00;

pub const UART_BAUD_LO: u32 = 0x04;

pub const UART_BAUD_HI: u32 = 0x08;

pub const UART_TX_DATA: u32 = 0x28;

pub const UART_STATUS: u32 = 0x2C;

#[derive(Clone, Copy, Debug, PartialEq, Eq, Structural)]
pub struct SimpleUart {
    pub control: u32,
    pub baud_div_lo: u32,
    pub baud_div_hi: u32,
    pub rx_buffer: Option<u8>,
}

impl SimpleUart {
    /// The status word: transmit is always done, receive is ready while a byte
    /// waits.
    pub open spec fn status(self) -> u32 {
        if self.rx_buffer is Some {
            0xA0
        } else {
            0x80
        }
    }

    /// The word an offset reads as.
    pub open spec fn word_at(self, offset: u32) -> u32 {
        if offset == UART_CONTROL {
            self.control
        } else if offset == UART_BAUD_LO {
            self.baud_div_lo
        } else if offset == UART_BAUD_HI {
            self.baud_div_hi
        } else if offset == UART_STATUS {
            self.status()
        } else {
            0
        }
    }

    /// The registers after a store.
    pub open spec fn after_write(self, offset: u32, val: u32) -> SimpleUart {
        if offset == UART_CONTROL {
            SimpleUart { control: val, ..self }
        } else if offset == UART_BAUD_LO {
            SimpleUart { baud_div_lo: val, ..self }
        } else if offset == UART_BAUD_HI {
            SimpleUart { baud_div_hi: val, ..self }
        } else {
            self
        }
    }

    pub fn new() -> (r: Self)
        ensures
            r == (SimpleUart { control: 0, baud_div_lo: 0, baud_div_hi: 0, rx_buffer: None }),
    {
        SimpleUart { control: 0, baud_div_lo: 0, baud_div_hi: 0, rx_buffer: None }
    }

    /// Put a byte in the receive buffer, replacing one that waits there.
    pub fn feed_rx(&mut self, byte: u8)
        ensures
            *final(self) == (SimpleUart { rx_buffer: Some(byte), ..*old(self) }),
    {
        self.rx_buffer = Some(byte);
    }

    /// The low byte of the register at an offset.
    pub fn read_byte(&mut self, offset: u32) -> (r: Result<u8, Exception>)
        ensures
            r == Ok::<u8, Exception>(old(self).word_at(offset) as u8),
            *final(self) == *old(self),
    {
        let word: u32 = self.word(offset);
        Ok(word as u8)
    }

    pub fn read_word(&mut self, offset: u32) -> (r: Result<u32, Exception>)
        ensures
            r == Ok::<u32, Exception>(old(self).word_at(offset)),
            *final(self) == *old(self),
    {
        Ok(self.word(offset))
    }

    fn word(&self, offset: u32) -> (r: u32)
        ensures
            r == self.word_at(offset),
    {
        if offset == UART_CONTROL {
            self.control
        } else if offset == UART_BAUD_LO {
            self.baud_div_lo
        } else if offset == UART_BAUD_HI {
            self.baud_div_hi
        } else if offset == UART_STATUS {
            if self.rx_buffer.is_some() {
                0xA0
            } else {
                0x80
            }
        } else {
            0
        }
    }

    /// Store a byte. A store to the transmit register yields the byte to send.
    pub fn write_byte(&mut self, offset: u32, val: u8) -> (r: Result<Option<u8>, Exception>)
        ensures
            *final(self) == old(self).after_write(offset, val as u32),
            r == Ok::<Option<u8>, Exception>(
                if offset == UART_TX_DATA {
                    Some(val)
                } else {
                    None
                },
            ),
    {
        if offset == UART_CONTROL {
            self.control = val as u32;
        } else if offset == UART_BAUD_LO {
            self.baud_div_lo = val as u32;
        } else if offset == UART_BAUD_HI {
            self.baud_div_hi = val as u32;
        } else if offset == UART_TX_DATA {
            return Ok(Some(val));
        }
        Ok(None)
    }

    /// Store a word. A store to the transmit register yields its low byte to
    /// send.
    pub fn write_word(&mut self, offset: u32, val: u32) -> (r: Result<Option<u8>, Exception>)
        ensures
            *final(self) == old(self).after_write(offset, val),
            r == Ok::<Option<u8>, Exception>(
                if offset == UART_TX_DATA {
                    Some(val as u8)
                } else {
                    None
                },
            ),
    {
        if offset == UART_CONTROL {
            self.control = val;
        } else if offset == UART_BAUD_LO {
            self.baud_div_lo = val;
        } else if offset == UART_BAUD_HI {
            self.baud_div_hi = val;
        } else if offset == UART_TX_DATA {
            return Ok(Some(val as u8));
        }
        Ok(None)
    }
}

/// Control and divisor registers read back what was stored; a waiting byte
/// stays in the status until another replaces it.
pub proof fn law_registers_round_trip(uart: SimpleUart, offset: u32, val: u32)
    ensures
        offset == UART_CONTROL || offset == UART_BAUD_LO || offset == UART_BAUD_HI
            ==> uart.after_write(offset, val).word_at(offset) == val,
        uart.after_write(offset, val).status() == uart.status(),
{
}

/// The status word says the transmitter is done, and that a byte waits exactly
/// where one does.
pub proof fn law_status_tells_of_a_waiting_byte(uart: SimpleUart)
    ensures
        uart.word_at(0x2C) == 0x80 + (if uart.rx_buffer is Some {
            0x20int
        } else {
            0
        }),
{
}

/// Each register has its own word: a store to one leaves the others, and what
/// is sent is kept nowhere.
pub proof fn law_registers_are_apart(uart: SimpleUart, val: u32, other: u32)
    ensures
        uart.after_write(0x00, val).word_at(0x00) == val,
        uart.after_write(0x04, val).word_at(0x04) == val,
        uart.after_write(0x08, val).word_at(0x08) == val,
        other != 0x00 ==> uart.after_write(0x00, val).word_at(other) == uart.word_at(other),
        other != 0x04 ==> uart.after_write(0x04, val).word_at(other) == uart.word_at(other),
        other != 0x08 ==> uart.after_write(0x08, val).word_at(other) == uart.word_at(other),
        uart.after_write(0x28, val) == uart,
        uart.after_write(0x2C, val) == uart,
        uart.word_at(0x28) == 0,
{
}

} // verus!
