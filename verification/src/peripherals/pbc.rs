//! Peripheral bus controller: the serial-flash FIFO and the flash DMA.
//!
//! Register offsets are relative to the controller's base. Both engines
//! complete at once, so the busy bits always read clear.

use vstd::prelude::*;

use super::spi_flash::{FlashState, SpiFlash};

verus! {

/// Where the DMA engine sees data memory.
pub const DMA_DCCM_BASE: u32 = 0xFFF80000;

pub const DMA_DCCM_SIZE: u32 = 0x80000;

pub const REG_SPI_CONTROL: u32 = 0x10;

/// Bit 0 reads as busy; a store with bit 0 set runs the FIFO command.
pub const REG_SPI_STATUS: u32 = 0x1C;

pub const REG_SPI_FIFO_DATA: u32 = 0x20;

pub const REG_SPI_FIFO_DATA1: u32 = 0x24;

pub const REG_SPI_READ_DATA: u32 = 0x2C;

pub const REG_SPI_READ_DATA1: u32 = 0x30;

pub const REG_SPI_CONFIG: u32 = 0x34;

/// Bit 0 reads as busy; a store with bit 0 set runs the transfer.
pub const REG_DMA_CTRL: u32 = 0x38;

pub const REG_DMA_ADDR: u32 = 0x3C;

pub const REG_DMA_DATA_ADDR: u32 = 0x40;

/// Bytes a transfer left for data memory.
pub struct DmaWrite {
    pub dccm_addr: u32,
    pub data: Vec<u8>,
}

impl View for DmaWrite {
    type V = (u32, Seq<u8>);

    open spec fn view(&self) -> (u32, Seq<u8>) {
        (self.dccm_addr, self.data@)
    }
}

impl Clone for DmaWrite {
    fn clone(&self) -> (r: Self)
        ensures
            r@ == self@,
    {
        let r = DmaWrite {
            dccm_addr: self.dccm_addr,
            data: self.data.clone(),
        };
        assert(r.data@ =~= self.data@);
        assert(r@ =~= self@);
        r
    }
}

/// The controller, as values.
#[verifier::ext_equal]
pub struct PbcState {
    pub flash: FlashState,
    pub trace: bool,
    pub spi_control: u32,
    pub spi_config: u32,
    pub fifo: Seq<u32>,
    pub rx: Seq<u32>,
    pub dma_ctrl: u32,
    pub dma_flash_addr: u32,
    pub dma_data_addr: u32,
    pub pending: Seq<(u32, Seq<u8>)>,
}

/// How many bytes a FIFO command sends.
pub open spec fn fifo_tx_len(cmd: u32) -> u32 {
    (cmd >> 4) & 0xF
}

/// How many bytes a FIFO command receives.
pub open spec fn fifo_rx_len(cmd: u32) -> u32 {
    (cmd >> 8) & 0xFF
}

/// How many bytes a transfer moves.
pub open spec fn dma_len(ctrl: u32) -> u32 {
    (ctrl >> 4) & 0xFFF
}

/// The bytes in the FIFO, low byte of each word first.
pub open spec fn fifo_bytes(fifo: Seq<u32>, len: nat) -> Seq<u8> {
    Seq::new(len, |i: int| (fifo[i / 4] >> ((i % 4 * 8) as u32)) as u8)
}

/// A received byte, zero past the end.
pub open spec fn rx_byte(rx: Seq<u8>, i: int) -> u32 {
    if i < rx.len() {
        rx[i] as u32
    } else {
        0
    }
}

/// A word of the receive buffer, low byte first.
pub open spec fn rx_word(rx: Seq<u8>, w: int) -> u32 {
    rx_byte(rx, 4 * w) | (rx_byte(rx, 4 * w + 1) << 8) | (rx_byte(rx, 4 * w + 2) << 16) | (rx_byte(
        rx,
        4 * w + 3,
    ) << 24)
}

/// The data-memory address a transfer target names, if it names one.
pub open spec fn dccm_target(mem_addr: u32) -> Option<u32> {
    if mem_addr >= DMA_DCCM_BASE {
        Some((mem_addr - DMA_DCCM_BASE) as u32)
    } else if mem_addr < 0x80000 {
        Some(mem_addr)
    } else {
        None
    }
}

impl PbcState {
    /// The controller at power-on, in front of an erased part.
    pub open spec fn fresh() -> PbcState {
        PbcState {
            flash: FlashState {
                data: Seq::new(0x40_0000, |i: int| 0xFFu8),
                status: 0,
                dirty: false,
            },
            trace: false,
            spi_control: 0,
            spi_config: 0,
            fifo: seq![0u32, 0u32],
            rx: seq![0u32, 0u32],
            dma_ctrl: 0,
            dma_flash_addr: 0,
            dma_data_addr: 0,
            pending: Seq::empty(),
        }
    }

    /// The word an offset reads as.
    pub open spec fn word_at(self, offset: u32) -> u32 {
        if offset == REG_SPI_CONTROL {
            self.spi_control
        } else if offset == REG_SPI_FIFO_DATA {
            self.fifo[0]
        } else if offset == REG_SPI_FIFO_DATA1 {
            self.fifo[1]
        } else if offset == REG_SPI_READ_DATA {
            self.rx[0]
        } else if offset == REG_SPI_READ_DATA1 {
            self.rx[1]
        } else if offset == REG_SPI_CONFIG {
            self.spi_config
        } else if offset == REG_DMA_ADDR {
            self.dma_flash_addr
        } else if offset == REG_DMA_DATA_ADDR {
            self.dma_data_addr
        } else {
            0
        }
    }

    /// The bytes a FIFO command sends to the flash.
    pub open spec fn sent(self, cmd: u32) -> Seq<u8> {
        fifo_bytes(self.fifo, fifo_tx_len(cmd) as nat)
    }

    /// The controller after a FIFO command.
    pub open spec fn after_fifo(self, cmd: u32) -> PbcState {
        let tx = self.sent(cmd);
        let answer = self.flash.response(tx, fifo_rx_len(cmd) as nat);
        PbcState {
            flash: self.flash.after(tx),
            rx: seq![rx_word(answer, 0), rx_word(answer, 1)],
            ..self
        }
    }

    /// The controller after a transfer from flash to data memory. A target
    /// outside data memory receives nothing.
    pub open spec fn after_dma(self, ctrl: u32) -> PbcState {
        match dccm_target(self.dma_data_addr) {
            Some(at) => PbcState {
                pending: self.pending.push(
                    (
                        at,
                        super::spi_flash::read_out(
                            self.flash.data,
                            self.dma_flash_addr as int,
                            dma_len(ctrl) as nat,
                        ),
                    ),
                ),
                ..self
            },
            None => self,
        }
    }

    /// The controller after a store.
    pub open spec fn after_write(self, offset: u32, val: u32) -> PbcState {
        if offset == REG_SPI_CONTROL {
            PbcState { spi_control: val, ..self }
        } else if offset == REG_SPI_STATUS {
            if val & 1 != 0 {
                self.after_fifo(val)
            } else {
                self
            }
        } else if offset == REG_SPI_FIFO_DATA {
            PbcState { fifo: self.fifo.update(0, val), ..self }
        } else if offset == REG_SPI_FIFO_DATA1 {
            PbcState { fifo: self.fifo.update(1, val), ..self }
        } else if offset == REG_SPI_CONFIG {
            PbcState { spi_config: val, ..self }
        } else if offset == REG_DMA_CTRL {
            let started = PbcState { dma_ctrl: val, ..self };
            if val & 1 != 0 {
                started.after_dma(val)
            } else {
                started
            }
        } else if offset == REG_DMA_ADDR {
            PbcState { dma_flash_addr: val, ..self }
        } else if offset == REG_DMA_DATA_ADDR {
            PbcState { dma_data_addr: val, ..self }
        } else {
            self
        }
    }

    /// The controller with its registers cleared and nothing pending; the
    /// flash keeps its contents.
    pub open spec fn registers_cleared(self) -> PbcState {
        PbcState {
            spi_control: 0,
            spi_config: 0,
            fifo: seq![0u32, 0u32],
            rx: seq![0u32, 0u32],
            dma_ctrl: 0,
            dma_flash_addr: 0,
            dma_data_addr: 0,
            pending: Seq::empty(),
            ..self
        }
    }

    /// Whether a store asks for something the controller can do. The FIFO is
    /// two words deep, and an erase must name a unit the flash has.
    pub open spec fn accepts(self, offset: u32, val: u32) -> bool {
        offset == REG_SPI_STATUS && val & 1 != 0 ==> fifo_tx_len(val) <= 8
            && self.flash.erase_in_range(self.sent(val))
    }
}

pub struct PeripheralBusController {
    pub flash: SpiFlash,
    pub trace: bool,
    pub spi_control: u32,
    pub spi_config: u32,
    pub spi_fifo: [u32; 2],
    pub spi_rx: [u32; 2],
    pub dma_ctrl: u32,
    pub dma_flash_addr: u32,
    pub dma_data_addr: u32,
    pub pending_dma: Vec<DmaWrite>,
}

impl View for PeripheralBusController {
    type V = PbcState;

    open spec fn view(&self) -> PbcState {
        PbcState {
            flash: self.flash@,
            trace: self.trace,
            spi_control: self.spi_control,
            spi_config: self.spi_config,
            fifo: self.spi_fifo@,
            rx: self.spi_rx@,
            dma_ctrl: self.dma_ctrl,
            dma_flash_addr: self.dma_flash_addr,
            dma_data_addr: self.dma_data_addr,
            pending: self.pending_dma@.map_values(|w: DmaWrite| w@),
        }
    }
}

impl Clone for PeripheralBusController {
    fn clone(&self) -> (r: Self)
        ensures
            r@ == self@,
    {
        let r = PeripheralBusController {
            flash: self.flash.clone(),
            trace: self.trace,
            spi_control: self.spi_control,
            spi_config: self.spi_config,
            spi_fifo: self.spi_fifo,
            spi_rx: self.spi_rx,
            dma_ctrl: self.dma_ctrl,
            dma_flash_addr: self.dma_flash_addr,
            dma_data_addr: self.dma_data_addr,
            pending_dma: self.pending_dma.clone(),
        };
        assert(r@.pending =~= self@.pending);
        assert(r@ =~= self@);
        r
    }
}

impl PeripheralBusController {
    pub open spec fn wf(&self) -> bool {
        self.flash.wf()
    }

    pub fn new() -> (r: Self)
        ensures
            r.wf(),
            r@ == PbcState::fresh(),
    {
        let r = PeripheralBusController {
            flash: SpiFlash::new(),
            trace: false,
            spi_control: 0,
            spi_config: 0,
            spi_fifo: [0u32; 2],
            spi_rx: [0u32; 2],
            dma_ctrl: 0,
            dma_flash_addr: 0,
            dma_data_addr: 0,
            pending_dma: Vec::new(),
        };
        assert(r.spi_fifo@ =~= seq![0u32, 0u32]);
        assert(r.spi_rx@ =~= seq![0u32, 0u32]);
        assert(r@.pending =~= Seq::empty());
        r
    }

    pub fn read_word(&mut self, offset: u32) -> (r: u32)
        ensures
            r == old(self)@.word_at(offset),
            *final(self) == *old(self),
    {
        self.peek_word(offset)
    }

    pub fn write_word(&mut self, offset: u32, val: u32)
        requires
            old(self).wf(),
            old(self)@.accepts(offset, val),
        ensures
            final(self).wf(),
            final(self)@ == old(self)@.after_write(offset, val),
    {
        if offset == REG_SPI_CONTROL {
            self.spi_control = val;
        } else if offset == REG_SPI_STATUS {
            if val & 1 != 0 {
                self.execute_fifo_command(val);
            }
        } else if offset == REG_SPI_FIFO_DATA {
            self.spi_fifo[0] = val;
        } else if offset == REG_SPI_FIFO_DATA1 {
            self.spi_fifo[1] = val;
        } else if offset == REG_SPI_CONFIG {
            self.spi_config = val;
        } else if offset == REG_DMA_CTRL {
            self.dma_ctrl = val;
            if val & 1 != 0 {
                self.execute_dma(val);
            }
        } else if offset == REG_DMA_ADDR {
            self.dma_flash_addr = val;
        } else if offset == REG_DMA_DATA_ADDR {
            self.dma_data_addr = val;
        }
    }

    /// Take the transfers waiting for data memory, oldest first.
    pub fn take_pending_dma(&mut self) -> (r: Vec<DmaWrite>)
        ensures
            r@.map_values(|w: DmaWrite| w@) == old(self)@.pending,
            final(self)@ == (PbcState { pending: Seq::empty(), ..old(self)@ }),
            old(self).wf() ==> final(self).wf(),
    {
        let mut taken: Vec<DmaWrite> = Vec::new();
        std::mem::swap(&mut taken, &mut self.pending_dma);
        assert(self@.pending =~= Seq::empty());
        taken
    }

    /// Clear the registers and what is pending.
    pub fn reset(&mut self)
        requires
            old(self).wf(),
        ensures
            final(self).wf(),
            final(self)@ == old(self)@.registers_cleared(),
    {
        self.spi_control = 0;
        self.spi_config = 0;
        self.spi_fifo = [0u32; 2];
        self.spi_rx = [0u32; 2];
        self.dma_ctrl = 0;
        self.dma_flash_addr = 0;
        self.dma_data_addr = 0;
        self.pending_dma = Vec::new();
        assert(self.spi_fifo@ =~= seq![0u32, 0u32]);
        assert(self.spi_rx@ =~= seq![0u32, 0u32]);
        assert(self@ =~= old(self)@.registers_cleared());
    }

    /// The word at an offset, which a load leaves as it is.
    pub fn peek_word(&self, offset: u32) -> (r: u32)
        ensures
            r == self@.word_at(offset),
    {
        if offset == REG_SPI_CONTROL {
            self.spi_control
        } else if offset == REG_SPI_FIFO_DATA {
            self.spi_fifo[0]
        } else if offset == REG_SPI_FIFO_DATA1 {
            self.spi_fifo[1]
        } else if offset == REG_SPI_READ_DATA {
            self.spi_rx[0]
        } else if offset == REG_SPI_READ_DATA1 {
            self.spi_rx[1]
        } else if offset == REG_SPI_CONFIG {
            self.spi_config
        } else if offset == REG_DMA_ADDR {
            self.dma_flash_addr
        } else if offset == REG_DMA_DATA_ADDR {
            self.dma_data_addr
        } else {
            0
        }
    }

    fn rx_byte_at(rx: &Vec<u8>, i: usize) -> (r: u32)
        ensures
            r == rx_byte(rx@, i as int),
    {
        if i < rx.len() {
            rx[i] as u32
        } else {
            0
        }
    }

    /// The bytes a FIFO command sends.
    fn bytes_sent(&self, cmd_word: u32) -> (r: Vec<u8>)
        requires
            fifo_tx_len(cmd_word) <= 8,
        ensures
            r@ == self@.sent(cmd_word),
    {
        let tx_len: usize = ((cmd_word >> 4) & 0xF) as usize;
        let mut tx: Vec<u8> = Vec::new();
        for i in 0..tx_len
            invariant
                tx_len <= 8,
                tx@ == fifo_bytes(self.spi_fifo@, i as nat),
        {
            let byte: u8 = (self.spi_fifo[i / 4] >> ((i % 4 * 8) as u32)) as u8;
            tx.push(byte);
            assert(tx@ =~= fifo_bytes(self.spi_fifo@, (i + 1) as nat));
        }
        tx
    }

    /// Whether a store asks for something the controller can do.
    pub fn would_accept(&self, offset: u32, val: u32) -> (r: bool)
        ensures
            r == self@.accepts(offset, val),
    {
        if offset != REG_SPI_STATUS || val & 1 == 0 {
            return true;
        }
        if (val >> 4) & 0xF > 8 {
            return false;
        }
        let tx = self.bytes_sent(val);
        self.flash.erase_fits(tx.as_slice())
    }

    fn execute_fifo_command(&mut self, cmd_word: u32)
        requires
            old(self).wf(),
            fifo_tx_len(cmd_word) <= 8,
            old(self)@.flash.erase_in_range(old(self)@.sent(cmd_word)),
        ensures
            final(self).wf(),
            final(self)@ == old(self)@.after_fifo(cmd_word),
    {
        let rx_len: usize = ((cmd_word >> 8) & 0xFF) as usize;
        let tx = self.bytes_sent(cmd_word);
        let rx = self.flash.execute_fifo_command(tx.as_slice(), rx_len);
        let low: u32 = Self::rx_byte_at(&rx, 0) | (Self::rx_byte_at(&rx, 1) << 8) | (
        Self::rx_byte_at(&rx, 2) << 16) | (Self::rx_byte_at(&rx, 3) << 24);
        let high: u32 = Self::rx_byte_at(&rx, 4) | (Self::rx_byte_at(&rx, 5) << 8) | (
        Self::rx_byte_at(&rx, 6) << 16) | (Self::rx_byte_at(&rx, 7) << 24);
        self.spi_rx = [low, high];
        assert(self.spi_rx@ =~= seq![rx_word(rx@, 0), rx_word(rx@, 1)]);
    }

    /// Move bytes from flash to data memory.
    fn execute_dma(&mut self, ctrl: u32)
        requires
            old(self).wf(),
        ensures
            final(self).wf(),
            final(self)@ == old(self)@.after_dma(ctrl),
    {
        let length: usize = ((ctrl >> 4) & 0xFFF) as usize;
        let mem_addr: u32 = self.dma_data_addr;
        let data = self.flash.dma_read(self.dma_flash_addr, length);
        if mem_addr >= DMA_DCCM_BASE {
            self.pending_dma.push(DmaWrite { dccm_addr: mem_addr - DMA_DCCM_BASE, data });
        } else if mem_addr < 0x80000 {
            self.pending_dma.push(DmaWrite { dccm_addr: mem_addr, data });
        }
        assert(self@.pending =~= old(self)@.after_dma(ctrl).pending);
    }
}

/// A transfer hands over the flash bytes it named, in the order they lie, and
/// leaves the flash as it was.
pub proof fn law_dma_hands_over_flash_bytes(s: PbcState, ctrl: u32, i: int)
    requires
        ctrl & 1 != 0,
        dccm_target(s.dma_data_addr) is Some,
        0 <= i < dma_len(ctrl),
    ensures
        ({
            let after = s.after_write(REG_DMA_CTRL, ctrl);
            &&& after.flash == s.flash
            &&& after.pending.len() == s.pending.len() + 1
            &&& after.pending.last().0 == dccm_target(s.dma_data_addr)->0
            &&& after.pending.last().1[i] == s.flash.data[super::spi_flash::cell(
                s.dma_flash_addr + i,
            )]
        }),
{
}

/// The busy bits of both engines always read clear.
pub proof fn law_engines_never_stay_busy(s: PbcState, offset: u32, val: u32)
    ensures
        s.after_write(offset, val).word_at(REG_SPI_STATUS) == 0,
        s.after_write(offset, val).word_at(REG_DMA_CTRL) == 0,
{
}

/// The registers software sets read back what it stored, and a store to one of
/// them changes no other word.
pub proof fn law_registers_read_back(s: PbcState, offset: u32, val: u32, other: u32)
    requires
        s.fifo.len() == 2,
        offset == 0x10 || offset == 0x20 || offset == 0x24 || offset == 0x34 || offset == 0x3C
            || offset == 0x40,
    ensures
        s.after_write(offset, val).word_at(offset) == val,
        other != offset ==> s.after_write(offset, val).word_at(other) == s.word_at(other),
        s.after_write(offset, val).flash == s.flash,
        s.after_write(offset, val).pending == s.pending,
{
}

/// The octet at a place of a list, zero past its end.
pub open spec fn octet(list: Seq<u8>, i: int) -> u8 {
    if i < list.len() {
        list[i]
    } else {
        0
    }
}

/// A store of an odd word to the status register sends the first bytes of the
/// FIFO to the flash, the low byte of each word first, as many as bits 4 to 7
/// say. What the flash answers stands in the two receive words, low byte first.
pub proof fn law_fifo_command_talks_to_the_flash(s: PbcState, cmd: u32, i: int)
    requires
        s.fifo.len() == 2,
        cmd % 2 == 1,
        (cmd / 16) % 16 <= 8,
    ensures
        ({
            let tx = s.sent(cmd);
            let answer = s.flash.response(tx, ((cmd / 0x100) % 0x100) as nat);
            let after = s.after_write(0x1C, cmd);
            let word = s.fifo[i / 4] as int;
            &&& tx.len() == (cmd / 16) % 16
            &&& 0 <= i < tx.len() && i % 4 == 0 ==> tx[i] == word % 0x100
            &&& 0 <= i < tx.len() && i % 4 == 1 ==> tx[i] == (word / 0x100) % 0x100
            &&& 0 <= i < tx.len() && i % 4 == 2 ==> tx[i] == (word / 0x1_0000) % 0x100
            &&& 0 <= i < tx.len() && i % 4 == 3 ==> tx[i] == word / 0x100_0000
            &&& after.flash == s.flash.after(tx)
            &&& after.word_at(0x2C) == octet(answer, 0) + octet(answer, 1) * 0x100 + octet(answer, 2)
                * 0x1_0000 + octet(answer, 3) * 0x100_0000
            &&& after.word_at(0x30) == octet(answer, 4) + octet(answer, 5) * 0x100 + octet(answer, 6)
                * 0x1_0000 + octet(answer, 7) * 0x100_0000
            &&& after.fifo == s.fifo && after.pending == s.pending
        }),
{
    crate::bits::lemma_fields(cmd);
    crate::bits::lemma_fields(cmd >> 4);
    crate::bits::lemma_fields(cmd >> 8);
    let tx = s.sent(cmd);
    let answer = s.flash.response(tx, ((cmd / 0x100) % 0x100) as nat);
    if 0 <= i < tx.len() {
        let w = s.fifo[i / 4];
        crate::bits::lemma_fields(w);
        crate::bits::lemma_fields(w >> 8);
        crate::bits::lemma_fields(w >> 16);
        crate::bits::lemma_fields(w >> 24);
    }
    crate::bits::lemma_octets(octet(answer, 3), octet(answer, 2), octet(answer, 1), octet(answer, 0), 0);
    crate::bits::lemma_octets(octet(answer, 7), octet(answer, 6), octet(answer, 5), octet(answer, 4), 0);
}

/// A store without the start bit starts nothing.
pub proof fn law_engines_wait_for_their_start_bit(s: PbcState, val: u32)
    requires
        val % 2 == 0,
    ensures
        s.after_write(0x1C, val) == s,
        s.after_write(0x38, val).flash == s.flash,
        s.after_write(0x38, val).pending == s.pending,
{
    crate::bits::lemma_fields(val);
}

/// A transfer moves as many bytes as bits 4 to 15 of its control word say, from
/// the flash address on, round the end of the part. Data memory lies at the top
/// of the address space for it, or at the bottom; any other target gets nothing.
pub proof fn law_transfer_lands_in_data_memory(s: PbcState, ctrl: u32, i: int)
    requires
        ctrl % 2 == 1,
    ensures
        ({
            let after = s.after_write(0x38, ctrl);
            let to = s.dma_data_addr;
            let len = (ctrl / 16) % 0x1000;
            let lands = to >= 0xFFF8_0000 || to < 0x8_0000;
            &&& after.flash == s.flash
            &&& !lands ==> after.pending == s.pending
            &&& lands ==> after.pending.len() == s.pending.len() + 1 && after.pending.drop_last()
                == s.pending
            &&& lands ==> after.pending.last().1.len() == len
            &&& to >= 0xFFF8_0000 ==> after.pending.last().0 == to - 0xFFF8_0000
            &&& to < 0x8_0000 ==> after.pending.last().0 == to
            &&& lands && 0 <= i < len ==> after.pending.last().1[i] == s.flash.data[(
            s.dma_flash_addr + i) % 0x40_0000]
        }),
{
    crate::bits::lemma_fields(ctrl);
    crate::bits::lemma_fields(ctrl >> 4);
    let after = s.after_write(0x38, ctrl);
    if dccm_target(s.dma_data_addr) is Some {
        assert(after.pending.drop_last() =~= s.pending);
    }
}

/// A reset clears every register and the pending transfers, and no cell.
pub proof fn law_reset_keeps_the_flash(s: PbcState, offset: u32)
    ensures
        s.registers_cleared().word_at(offset) == 0,
        s.registers_cleared().pending.len() == 0,
        s.registers_cleared().flash == s.flash,
        PbcState::fresh().word_at(offset) == 0,
{
}

} // verus!
