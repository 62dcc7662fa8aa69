//! MX25L3235E serial NOR flash: 4 MB, JEDEC identity `C2 20 16`.

use vstd::prelude::*;

verus! {

/// Bytes the part holds.
pub const FLASH_SIZE: usize = 0x40_0000;

/// Read status register.
pub const CMD_RDSR: u8 = 0x05;

/// Write enable.
pub const CMD_WREN: u8 = 0x06;

/// Write disable.
pub const CMD_WRDI: u8 = 0x04;

/// Write status register.
pub const CMD_WRSR: u8 = 0x01;

/// Read data.
pub const CMD_READ: u8 = 0x03;

/// Read data after one dummy byte.
pub const CMD_FAST_READ: u8 = 0x0B;

/// Page program.
pub const CMD_PP: u8 = 0x02;

/// Sector erase, 4 KB.
pub const CMD_SE: u8 = 0x20;

/// Block erase, 64 KB.
pub const CMD_BE: u8 = 0xD8;

/// Chip erase.
pub const CMD_CE: u8 = 0xC7;

/// Read JEDEC identity.
pub const CMD_RDID: u8 = 0x9F;

/// Read manufacturer and device identity.
pub const CMD_REMS: u8 = 0x90;

/// Continuously program.
pub const CMD_CP: u8 = 0xAD;

/// Write in progress.
pub const SR_WIP: u8 = 0x01;

/// Write enable latch.
pub const SR_WEL: u8 = 0x02;

pub const JEDEC_MANUFACTURER: u8 = 0xC2;

pub const JEDEC_MEMORY_TYPE: u8 = 0x20;

pub const JEDEC_CAPACITY: u8 = 0x16;

pub const DEVICE_ID: u8 = 0x15;

pub const SECTOR_SIZE: u32 = 0x1000;

pub const BLOCK_SIZE: u32 = 0x1_0000;

/// Contents and status register of the part, and whether the contents were
/// written to since they were loaded.
#[verifier::ext_equal]
pub struct FlashState {
    pub data: Seq<u8>,
    pub status: u8,
    pub dirty: bool,
}

/// The 24-bit address a command carries after its opcode.
pub open spec fn command_address(tx: Seq<u8>) -> u32 {
    ((tx[1] as u32) << 16) | ((tx[2] as u32) << 8) | (tx[3] as u32)
}

/// A cell of the part, addresses wrapping at its end.
pub open spec fn cell(addr: int) -> int {
    addr % 0x40_0000
}

/// Bytes read out from an address on.
pub open spec fn read_out(data: Seq<u8>, addr: int, len: nat) -> Seq<u8> {
    Seq::new(len, |i: int| data[cell(addr + i)])
}

/// Contents after programming: a cell keeps a bit only where the byte written
/// over it has that bit too.
pub open spec fn programmed(data: Seq<u8>, addr: int, bytes: Seq<u8>) -> Seq<u8>
    decreases bytes.len(),
{
    if bytes.len() == 0 {
        data
    } else {
        let before = programmed(data, addr, bytes.drop_last());
        let at = cell(addr + bytes.len() - 1);
        before.update(at, before[at] & bytes.last())
    }
}

/// Contents after erasing the cells in `[lo, hi)`.
pub open spec fn erased(data: Seq<u8>, lo: int, hi: int) -> Seq<u8> {
    Seq::new(
        data.len(),
        |i: int|
            if lo <= i < hi {
                0xFFu8
            } else {
                data[i]
            },
    )
}

/// Where an aligned unit that covers an address starts.
pub open spec fn unit_base(addr: u32, size: u32) -> int {
    addr - addr % size
}

impl FlashState {
    pub open spec fn write_enabled(self) -> bool {
        self.status & SR_WEL != 0
    }

    /// Whether a command programs or erases: the latch is set and the address
    /// is complete.
    pub open spec fn may_write(self, tx: Seq<u8>) -> bool {
        self.write_enabled() && tx.len() >= 4
    }

    /// The bytes the part answers a command with.
    pub open spec fn response(self, tx: Seq<u8>, rx_len: nat) -> Seq<u8> {
        if tx.len() == 0 {
            Seq::new(rx_len, |i: int| 0u8)
        } else if tx[0] == CMD_RDID {
            Seq::new(
                rx_len,
                |i: int|
                    if i == 0 {
                        JEDEC_MANUFACTURER
                    } else if i == 1 {
                        JEDEC_MEMORY_TYPE
                    } else if i == 2 {
                        JEDEC_CAPACITY
                    } else {
                        0u8
                    },
            )
        } else if tx[0] == CMD_REMS {
            let swapped = tx.len() >= 4 && tx[3] & 1 != 0;
            Seq::new(
                rx_len,
                |i: int|
                    if i == 0 {
                        if swapped {
                            DEVICE_ID
                        } else {
                            JEDEC_MANUFACTURER
                        }
                    } else if i == 1 {
                        if swapped {
                            JEDEC_MANUFACTURER
                        } else {
                            DEVICE_ID
                        }
                    } else {
                        0u8
                    },
            )
        } else if tx[0] == CMD_RDSR {
            Seq::new(
                rx_len,
                |i: int|
                    if i == 0 {
                        self.status
                    } else {
                        0u8
                    },
            )
        } else if tx[0] == CMD_READ && tx.len() >= 4 || tx[0] == CMD_FAST_READ && tx.len() >= 5 {
            read_out(self.data, command_address(tx) as int, rx_len)
        } else {
            Seq::new(rx_len, |i: int| 0u8)
        }
    }

    /// The part after a command.
    pub open spec fn after(self, tx: Seq<u8>) -> FlashState {
        if tx.len() == 0 {
            self
        } else if tx[0] == CMD_WREN {
            FlashState { status: self.status | SR_WEL, ..self }
        } else if tx[0] == CMD_WRDI {
            FlashState { status: self.status & !SR_WEL, ..self }
        } else if tx[0] == CMD_WRSR {
            FlashState {
                status: (if self.write_enabled() && tx.len() >= 2 {
                    (self.status & (SR_WIP | SR_WEL)) | (tx[1] & 0xFC)
                } else {
                    self.status
                }) & !SR_WEL,
                ..self
            }
        } else if tx[0] == CMD_PP {
            FlashState {
                data: if self.may_write(tx) {
                    programmed(self.data, command_address(tx) as int, tx.skip(4))
                } else {
                    self.data
                },
                status: self.status & !SR_WEL,
                dirty: self.dirty || self.may_write(tx),
            }
        } else if tx[0] == CMD_SE {
            FlashState {
                data: if self.may_write(tx) {
                    let base = unit_base(command_address(tx), SECTOR_SIZE);
                    erased(self.data, base, base + SECTOR_SIZE)
                } else {
                    self.data
                },
                status: self.status & !SR_WEL,
                dirty: self.dirty || self.may_write(tx),
            }
        } else if tx[0] == CMD_BE {
            FlashState {
                data: if self.may_write(tx) {
                    let base = unit_base(command_address(tx), BLOCK_SIZE);
                    erased(self.data, base, base + BLOCK_SIZE)
                } else {
                    self.data
                },
                status: self.status & !SR_WEL,
                dirty: self.dirty || self.may_write(tx),
            }
        } else if tx[0] == CMD_CE {
            FlashState {
                data: if self.write_enabled() {
                    erased(self.data, 0, self.data.len() as int)
                } else {
                    self.data
                },
                status: self.status & !SR_WEL,
                dirty: self.dirty || self.write_enabled(),
            }
        } else if tx[0] == CMD_CP {
            // The latch stays set: the mode ends with a write disable.
            FlashState {
                data: if self.may_write(tx) {
                    programmed(self.data, command_address(tx) as int, tx.skip(4))
                } else {
                    self.data
                },
                dirty: self.dirty || self.may_write(tx),
                ..self
            }
        } else {
            self
        }
    }

    /// Whether an erase names a unit the part has. An erase beyond its end is
    /// not a command the model carries out.
    pub open spec fn erase_in_range(self, tx: Seq<u8>) -> bool {
        self.may_write(tx) ==> {
            &&& tx[0] == CMD_SE ==> unit_base(command_address(tx), SECTOR_SIZE) <= FLASH_SIZE
            &&& tx[0] == CMD_BE ==> unit_base(command_address(tx), BLOCK_SIZE) <= FLASH_SIZE
        }
    }
}

pub struct SpiFlash {
    pub data: Vec<u8>,
    pub status: u8,
    /// Whether the contents were written to since they were loaded.
    pub dirty: bool,
}

impl View for SpiFlash {
    type V = FlashState;

    open spec fn view(&self) -> FlashState {
        FlashState { data: self.data@, status: self.status, dirty: self.dirty }
    }
}

impl Clone for SpiFlash {
    fn clone(&self) -> (r: Self)
        ensures
            r@ == self@,
    {
        let r = SpiFlash {
            data: self.data.clone(),
            status: self.status,
            dirty: self.dirty,
        };
        assert(r.data@ =~= self.data@);
        assert(r@ =~= self@);
        r
    }
}

impl SpiFlash {
    pub open spec fn wf(&self) -> bool {
        self.data@.len() == FLASH_SIZE
    }

    /// An erased part, idle and write-disabled.
    pub fn new() -> (r: Self)
        ensures
            r.wf(),
            r@ == (FlashState {
                data: Seq::new(0x40_0000, |i: int| 0xFFu8),
                status: 0,
                dirty: false,
            }),
    {
        let r = SpiFlash { data: vec![0xFFu8; 0x40_0000], status: 0x00, dirty: false };
        assert(r.data@ =~= Seq::new(0x40_0000, |i: int| 0xFFu8));
        r
    }

    fn extract_addr(tx: &[u8]) -> (r: u32)
        requires
            tx@.len() >= 4,
        ensures
            r == command_address(tx@),
    {
        ((tx[1] as u32) << 16) | ((tx[2] as u32) << 8) | (tx[3] as u32)
    }

    /// The cell `i` bytes past an address.
    fn cell_at(addr: u32, i: usize) -> (r: usize)
        ensures
            r == cell(addr + i),
            r < FLASH_SIZE,
    {
        ((addr as usize) % 0x40_0000 + i % 0x40_0000) % 0x40_0000
    }

    fn read_bytes(&self, addr: u32, len: usize) -> (r: Vec<u8>)
        requires
            self.wf(),
        ensures
            r@ == read_out(self.data@, addr as int, len as nat),
    {
        let mut out: Vec<u8> = Vec::new();
        for i in 0..len
            invariant
                self.wf(),
                out@ == read_out(self.data@, addr as int, i as nat),
        {
            out.push(self.data[Self::cell_at(addr, i)]);
            assert(out@ =~= read_out(self.data@, addr as int, (i + 1) as nat));
        }
        out
    }

    /// Clear the bits of the cells from `addr` on that the bytes from `from`
    /// on do not have.
    fn program(&mut self, addr: u32, bytes: &[u8], from: usize)
        requires
            old(self).wf(),
            from <= bytes@.len(),
        ensures
            final(self).wf(),
            final(self).data@ == programmed(old(self).data@, addr as int, bytes@.skip(from as int)),
            final(self).status == old(self).status,
            final(self).dirty,
    {
        self.dirty = true;
        let len: usize = bytes.len();
        let ghost tail = bytes@.skip(from as int);
        assert(tail.take(0) =~= Seq::<u8>::empty());
        for i in from..len
            invariant
                self.wf(),
                from <= i <= len,
                len == bytes@.len(),
                tail == bytes@.skip(from as int),
                self.data@ == programmed(old(self).data@, addr as int, tail.take(i - from)),
                self.status == old(self).status,
                self.dirty,
        {
            let at: usize = Self::cell_at(addr, i - from);
            self.data[at] = self.data[at] & bytes[i];
            proof {
                let now = tail.take(i - from + 1);
                assert(now.drop_last() =~= tail.take(i - from));
                assert(now.last() == bytes@[i as int]);
            }
        }
        assert(tail.take(len - from) =~= tail);
    }

    /// Erase the cells in `[lo, hi)` that the part has.
    fn erase(&mut self, lo: usize, hi: usize)
        requires
            old(self).wf(),
        ensures
            final(self).wf(),
            final(self).data@ == erased(old(self).data@, lo as int, hi as int),
            final(self).status == old(self).status,
            final(self).dirty,
    {
        self.dirty = true;
        let end: usize = if hi < FLASH_SIZE {
            hi
        } else {
            FLASH_SIZE
        };
        let mut i: usize = lo;
        assert(self.data@ =~= erased(old(self).data@, lo as int, lo as int));
        while i < end
            invariant
                self.wf(),
                end <= FLASH_SIZE,
                i > lo ==> i <= end,
                i >= lo,
                self.data@ == erased(old(self).data@, lo as int, i as int),
                self.status == old(self).status,
                self.dirty,
            decreases end - i,
        {
            self.data[i] = 0xFF;
            i = i + 1;
            assert(self.data@ =~= erased(old(self).data@, lo as int, i as int));
        }
        assert(self.data@ =~= erased(old(self).data@, lo as int, hi as int));
    }

    /// Whether a command, if it erases, names a unit the part has.
    pub fn erase_fits(&self, tx: &[u8]) -> (r: bool)
        ensures
            r == self@.erase_in_range(tx@),
    {
        if self.status & SR_WEL == 0 || tx.len() < 4 {
            return true;
        }
        let addr: u32 = Self::extract_addr(tx);
        if tx[0] == CMD_SE {
            addr - addr % SECTOR_SIZE <= FLASH_SIZE as u32
        } else if tx[0] == CMD_BE {
            addr - addr % BLOCK_SIZE <= FLASH_SIZE as u32
        } else {
            true
        }
    }

    /// Carry out a command sent through the FIFO: `tx` holds the opcode and
    /// what follows it, and the answer has `rx_len` bytes.
    pub fn execute_fifo_command(&mut self, tx: &[u8], rx_len: usize) -> (r: Vec<u8>)
        requires
            old(self).wf(),
            old(self)@.erase_in_range(tx@),
        ensures
            final(self).wf(),
            r@ == old(self)@.response(tx@, rx_len as nat),
            final(self)@ == old(self)@.after(tx@),
    {
        let mut rx: Vec<u8> = vec![0u8; rx_len];
        if tx.len() == 0 {
            assert(rx@ =~= Seq::new(rx_len as nat, |i: int| 0u8));
            return rx;
        }
        let opcode: u8 = tx[0];
        let ghost before = self@;
        if opcode == CMD_RDID {
            if rx_len >= 1 {
                rx[0] = JEDEC_MANUFACTURER;
            }
            if rx_len >= 2 {
                rx[1] = JEDEC_MEMORY_TYPE;
            }
            if rx_len >= 3 {
                rx[2] = JEDEC_CAPACITY;
            }
        } else if opcode == CMD_REMS {
            let swapped: bool = tx.len() >= 4 && tx[3] & 1 != 0;
            if rx_len >= 1 {
                rx[0] = if swapped {
                    DEVICE_ID
                } else {
                    JEDEC_MANUFACTURER
                };
            }
            if rx_len >= 2 {
                rx[1] = if swapped {
                    JEDEC_MANUFACTURER
                } else {
                    DEVICE_ID
                };
            }
        } else if opcode == CMD_RDSR {
            if rx_len >= 1 {
                rx[0] = self.status;
            }
        } else if opcode == CMD_WREN {
            self.status = self.status | SR_WEL;
        } else if opcode == CMD_WRDI {
            self.status = self.status & !SR_WEL;
        } else if opcode == CMD_WRSR {
            if self.status & SR_WEL != 0 && tx.len() >= 2 {
                // Only the protection bits are writable.
                self.status = (self.status & (SR_WIP | SR_WEL)) | (tx[1] & 0xFC);
            }
            self.status = self.status & !SR_WEL;
        } else if opcode == CMD_READ {
            if tx.len() >= 4 {
                rx = self.read_bytes(Self::extract_addr(tx), rx_len);
            }
        } else if opcode == CMD_FAST_READ {
            if tx.len() >= 5 {
                rx = self.read_bytes(Self::extract_addr(tx), rx_len);
            }
        } else if opcode == CMD_PP {
            if self.status & SR_WEL != 0 && tx.len() >= 4 {
                self.program(Self::extract_addr(tx), tx, 4);
            }
            self.status = self.status & !SR_WEL;
        } else if opcode == CMD_SE {
            if self.status & SR_WEL != 0 && tx.len() >= 4 {
                let addr: u32 = Self::extract_addr(tx);
                let base: u32 = addr - addr % SECTOR_SIZE;
                self.erase(base as usize, (base + SECTOR_SIZE) as usize);
            }
            self.status = self.status & !SR_WEL;
        } else if opcode == CMD_BE {
            if self.status & SR_WEL != 0 && tx.len() >= 4 {
                let addr: u32 = Self::extract_addr(tx);
                let base: u32 = addr - addr % BLOCK_SIZE;
                self.erase(base as usize, (base + BLOCK_SIZE) as usize);
            }
            self.status = self.status & !SR_WEL;
        } else if opcode == CMD_CE {
            if self.status & SR_WEL != 0 {
                self.erase(0, FLASH_SIZE);
            }
            self.status = self.status & !SR_WEL;
        } else if opcode == CMD_CP {
            if self.status & SR_WEL != 0 && tx.len() >= 4 {
                self.program(Self::extract_addr(tx), tx, 4);
            }
        }
        assert(rx@ =~= before.response(tx@, rx_len as nat));
        rx
    }

    /// The bytes a DMA transfer reads, wrapping at the end of the part.
    pub fn dma_read(&self, addr: u32, len: usize) -> (r: Vec<u8>)
        requires
            self.wf(),
        ensures
            r@ == read_out(self@.data, addr as int, len as nat),
    {
        self.read_bytes(addr, len)
    }

    /// Program the bytes a DMA transfer writes, wrapping at the end of the
    /// part.
    pub fn dma_write(&mut self, addr: u32, data: &[u8])
        requires
            old(self).wf(),
        ensures
            final(self).wf(),
            final(self)@ == (FlashState {
                data: programmed(old(self)@.data, addr as int, data@),
                dirty: true,
                ..old(self)@
            }),
    {
        assert(data@.skip(0) =~= data@);
        self.program(addr, data, 0);
    }
}

proof fn lemma_programmed_len(data: Seq<u8>, addr: int, bytes: Seq<u8>)
    requires
        data.len() == FLASH_SIZE,
    ensures
        programmed(data, addr, bytes).len() == data.len(),
    decreases bytes.len(),
{
    if bytes.len() > 0 {
        lemma_programmed_len(data, addr, bytes.drop_last());
    }
}

/// Programming a run no longer than the part leaves, in each cell of the run,
/// the bits that the cell and its byte share, and every other cell untouched.
pub proof fn law_program_cell_by_cell(data: Seq<u8>, addr: int, bytes: Seq<u8>, at: int)
    requires
        data.len() == FLASH_SIZE,
        bytes.len() <= FLASH_SIZE,
        0 <= at < FLASH_SIZE,
        0 <= addr,
    ensures
        programmed(data, addr, bytes).len() == FLASH_SIZE,
        cell(at - addr) < bytes.len() ==> programmed(data, addr, bytes)[at] == data[at] & bytes[cell(
            at - addr,
        )],
        cell(at - addr) >= bytes.len() ==> programmed(data, addr, bytes)[at] == data[at],
    decreases bytes.len(),
{
    lemma_programmed_len(data, addr, bytes);
    if bytes.len() > 0 {
        law_program_cell_by_cell(data, addr, bytes.drop_last(), at);
        lemma_programmed_len(data, addr, bytes.drop_last());
        let k = bytes.len() - 1;
        assert(cell(addr + k) == at <==> cell(at - addr) == k);
    }
}

/// Programming can only clear bits.
pub proof fn law_program_only_clears_bits(data: Seq<u8>, addr: int, bytes: Seq<u8>, at: int)
    requires
        data.len() == FLASH_SIZE,
        0 <= at < FLASH_SIZE,
    ensures
        programmed(data, addr, bytes)[at] & data[at] == programmed(data, addr, bytes)[at],
    decreases bytes.len(),
{
    let d = data[at];
    if bytes.len() == 0 {
        assert(d & d == d) by (bit_vector);
    } else {
        let before = programmed(data, addr, bytes.drop_last());
        law_program_only_clears_bits(data, addr, bytes.drop_last(), at);
        let p = before[at];
        let b = bytes.last();
        assert(p & d == p ==> (p & b) & d == p & b) by (bit_vector);
        lemma_programmed_len(data, addr, bytes.drop_last());
    }
}

/// What is programmed into erased cells reads back.
pub proof fn law_program_then_read(data: Seq<u8>, addr: u32, bytes: Seq<u8>)
    requires
        data.len() == FLASH_SIZE,
        bytes.len() <= FLASH_SIZE,
        forall|i: int| 0 <= i < bytes.len() ==> #[trigger] data[cell(addr + i)] == 0xFF,
    ensures
        read_out(programmed(data, addr as int, bytes), addr as int, bytes.len()) == bytes,
{
    let out = read_out(programmed(data, addr as int, bytes), addr as int, bytes.len());
    assert forall|i: int| 0 <= i < bytes.len() implies out[i] == bytes[i] by {
        let at = cell(addr + i);
        law_program_cell_by_cell(data, addr as int, bytes, at);
        assert(cell(at - addr) == i);
        assert(data[cell(addr + i)] == 0xFF);
        let b = bytes[i];
        assert(0xFFu8 & b == b) by (bit_vector);
    }
    assert(out =~= bytes);
}

/// Without the write enable latch no command changes a cell.
pub proof fn law_write_needs_enable(s: FlashState, tx: Seq<u8>)
    requires
        !s.write_enabled(),
    ensures
        s.after(tx).data == s.data,
{
}

/// A program or an erase uses the latch up: afterwards it is clear. Write
/// enable sets it and write disable clears it.
pub proof fn law_latch_is_used_up(s: FlashState, tx: Seq<u8>)
    requires
        tx.len() > 0,
    ensures
        tx[0] == CMD_PP || tx[0] == CMD_SE || tx[0] == CMD_BE || tx[0] == CMD_CE || tx[0]
            == CMD_WRSR || tx[0] == CMD_WRDI ==> !s.after(tx).write_enabled(),
        tx[0] == CMD_WREN ==> s.after(tx).write_enabled(),
{
    let st = s.status;
    let w = tx[if tx.len() >= 2 {
        1
    } else {
        0
    }];
    assert((st & !2u8) & 2 == 0 && (st | 2u8) & 2 != 0 && (((st & (1u8 | 2u8)) | (w & 0xFC)) & !2u8)
        & 2 == 0) by (bit_vector);
}

/// Reading commands change nothing.
pub proof fn law_reads_change_nothing(s: FlashState, tx: Seq<u8>)
    requires
        tx.len() > 0,
        tx[0] == CMD_RDID || tx[0] == CMD_REMS || tx[0] == CMD_RDSR || tx[0] == CMD_READ || tx[0]
            == CMD_FAST_READ,
    ensures
        s.after(tx) == s,
{
}

/// Contents that changed under a command are marked.
pub proof fn law_changed_contents_are_marked(s: FlashState, tx: Seq<u8>)
    ensures
        s.after(tx).data != s.data ==> s.after(tx).dirty,
        s.dirty ==> s.after(tx).dirty,
{
}

/// The address a command names, most significant byte first.
pub proof fn law_address_follows_the_opcode(tx: Seq<u8>)
    requires
        tx.len() >= 4,
    ensures
        command_address(tx) == tx[1] * 0x1_0000 + tx[2] * 0x100 + tx[3],
{
    crate::bits::lemma_octets(tx[1], tx[2], tx[3], 0, 0);
}

/// With the latch set, an erase of 4 KB or of 64 KB leaves every cell of the
/// unit its address lies in at all ones, and every other cell as it was.
pub proof fn law_erase_clears_its_unit(s: FlashState, tx: Seq<u8>, i: int)
    requires
        s.data.len() == 0x40_0000,
        s.status & 2 != 0,
        tx.len() >= 4,
        tx[0] == 0x20 || tx[0] == 0xD8,
        0 <= i < 0x40_0000,
    ensures
        ({
            let unit: int = if tx[0] == 0x20 { 4096 } else { 65536 };
            let a = tx[1] * 0x1_0000 + tx[2] * 0x100 + tx[3];
            &&& s.after(tx).data.len() == 0x40_0000
            &&& i / unit == a / unit ==> s.after(tx).data[i] == 0xFF
            &&& i / unit != a / unit ==> s.after(tx).data[i] == s.data[i]
        }),
{
    law_address_follows_the_opcode(tx);
    let a = command_address(tx) as int;
    if tx[0] == 0x20 {
        assert(unit_base(command_address(tx), SECTOR_SIZE) == (a / 4096) * 4096);
    } else {
        assert(unit_base(command_address(tx), BLOCK_SIZE) == (a / 65536) * 65536);
    }
}

/// With the latch set, a chip erase leaves every cell at all ones.
pub proof fn law_chip_erase_clears_every_cell(s: FlashState, tx: Seq<u8>, i: int)
    requires
        s.data.len() == 0x40_0000,
        s.status & 2 != 0,
        tx.len() >= 1,
        tx[0] == 0xC7,
        0 <= i < 0x40_0000,
    ensures
        s.after(tx).data.len() == 0x40_0000,
        s.after(tx).data[i] == 0xFF,
{
}

/// With the latch set, a page program and a continuous program leave in each
/// cell of the run the bits it shares with its byte, and every other cell as it
/// was. The run wraps at the end of the part.
pub proof fn law_program_command_clears_bits(s: FlashState, tx: Seq<u8>, k: int, other: int)
    requires
        s.data.len() == 0x40_0000,
        s.status & 2 != 0,
        tx[0] == 0x02 || tx[0] == 0xAD,
        5 <= tx.len() <= 0x40_0000,
        0 <= k < tx.len() - 4,
        0 <= other < 0x40_0000,
        forall|j: int|
            0 <= j < tx.len() - 4 ==> other != #[trigger] wrapped(
                tx[1] * 0x1_0000 + tx[2] * 0x100 + tx[3] + j,
            ),
    ensures
        ({
            let at = wrapped(tx[1] * 0x1_0000 + tx[2] * 0x100 + tx[3] + k);
            &&& s.after(tx).data[at] == s.data[at] & tx[4 + k]
            &&& s.after(tx).data[other] == s.data[other]
        }),
{
    law_address_follows_the_opcode(tx);
    let a = command_address(tx) as int;
    let at = wrapped(a + k);
    let bytes = tx.skip(4);
    assert(bytes[k] == tx[4 + k]);
    assert(s.after(tx).data == programmed(s.data, a, bytes));
    lemma_round_the_end(a, k, other);
    law_program_cell_by_cell(s.data, a, bytes, at);
    law_program_cell_by_cell(s.data, a, bytes, other);
    if cell(other - a) < tx.len() - 4 {
        assert(wrapped(a + cell(other - a)) == other);
    }
}

/// From an address to a cell of the part and back.
proof fn lemma_round_the_end(a: int, k: int, other: int)
    requires
        0 <= k < 0x40_0000,
        0 <= other < 0x40_0000,
    ensures
        0 <= wrapped(a + k) < 0x40_0000,
        cell(wrapped(a + k) - a) == k,
        wrapped(a + cell(other - a)) == other,
{
}

/// An address taken round the end of the part.
pub open spec fn wrapped(addr: int) -> int {
    addr % 0x40_0000
}

/// A read gives the cells from its address on, round the end of the part. A
/// fast read wants one byte more in front.
pub proof fn law_read_gives_the_cells(s: FlashState, tx: Seq<u8>, rx_len: nat, k: int)
    requires
        tx.len() >= 5 && tx[0] == 0x0B || tx.len() >= 4 && tx[0] == 0x03,
        0 <= k < rx_len,
    ensures
        s.response(tx, rx_len).len() == rx_len,
        s.response(tx, rx_len)[k] == s.data[wrapped(
            tx[1] * 0x1_0000 + tx[2] * 0x100 + tx[3] + k,
        )],
{
    law_address_follows_the_opcode(tx);
}

/// The part identifies itself: `C2 20 16`, or `C2` and `15` in the order the
/// last address bit asks for. It shows its status register first thing.
pub proof fn law_part_identifies_itself(s: FlashState, tx: Seq<u8>, rx_len: nat)
    requires
        tx.len() >= 4,
        rx_len >= 3,
    ensures
        tx[0] == 0x9F ==> s.response(tx, rx_len).take(3) == seq![0xC2u8, 0x20u8, 0x16u8],
        tx[0] == 0x90 && tx[3] & 1 == 0 ==> s.response(tx, rx_len).take(2) == seq![0xC2u8, 0x15u8],
        tx[0] == 0x90 && tx[3] & 1 != 0 ==> s.response(tx, rx_len).take(2) == seq![0x15u8, 0xC2u8],
        tx[0] == 0x05 ==> s.response(tx, rx_len)[0] == s.status,
{
    let r = s.response(tx, rx_len);
    if tx[0] == 0x9F {
        assert(r.take(3) =~= seq![0xC2u8, 0x20u8, 0x16u8]);
    } else if tx[0] == 0x90 {
        if tx[3] & 1 == 0 {
            assert(r.take(2) =~= seq![0xC2u8, 0x15u8]);
        } else {
            assert(r.take(2) =~= seq![0x15u8, 0xC2u8]);
        }
    }
}

/// Only commands that write need an address, and only a status write touches
/// the protection bits: it takes the top six bits of its byte, and the latch.
pub proof fn law_status_write_sets_protection(s: FlashState, tx: Seq<u8>)
    requires
        tx.len() >= 2,
        tx[0] == 0x01,
    ensures
        s.after(tx).data == s.data,
        s.status & 2 != 0 ==> s.after(tx).status & 0xFC == tx[1] & 0xFC,
        s.status & 2 == 0 ==> s.after(tx).status == s.status,
        s.after(tx).status & 1 == s.status & 1,
        s.after(tx).status & 2 == 0,
{
    let (st, w) = (s.status, tx[1]);
    assert({
        let n = ((st & (1u8 | 2u8)) | (w & 0xFC)) & !2u8;
        &&& n & 0xFC == w & 0xFC
        &&& n & 1 == st & 1
        &&& n & 2 == 0
        &&& st & 2 == 0 ==> st & !2u8 == st
        &&& (st & !2u8) & 1 == st & 1
        &&& (st & !2u8) & 2 == 0
    }) by (bit_vector);
}

/// A program or an erase without a whole address changes no cell.
pub proof fn law_write_needs_an_address(s: FlashState, tx: Seq<u8>)
    requires
        tx.len() < 4,
        tx.len() == 0 || tx[0] != 0xC7,
    ensures
        s.after(tx).data == s.data,
{
}

/// The bytes of a DMA transfer are the cells it names, and what it writes only
/// clears bits of the cells it names.
pub proof fn law_dma_bytes_are_the_cells(data: Seq<u8>, addr: u32, len: nat, k: int)
    requires
        0 <= k < len,
    ensures
        read_out(data, addr as int, len).len() == len,
        read_out(data, addr as int, len)[k] == data[wrapped(addr + k)],
{
}

} // verus!
