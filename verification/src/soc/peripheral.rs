//! The vocabulary the peripheral models share: address ranges, the events a
//! front end may inject, the snapshots it may draw, and the work a peripheral
//! leaves for the memory system.

use vstd::prelude::*;

verus! {

/// A half-open range of bus addresses `[start, end)`.
#[derive(Clone, Copy, Debug, PartialEq, Eq, Structural)]
pub struct AddressRange {
    pub start: u32,
    pub end: u32,
}

impl AddressRange {
    /// Whether the range holds the address.
    pub open spec fn has(self, addr: u32) -> bool {
        self.start <= addr < self.end
    }

    pub fn new(start: u32, end: u32) -> (r: Self)
        ensures
            r == (AddressRange { start, end }),
    {
        AddressRange { start, end }
    }

    pub fn contains(&self, addr: u32) -> (r: bool)
        ensures
            r == self.has(addr),
    {
        self.start <= addr && addr < self.end
    }
}

/// Why a peripheral refused an event.
#[derive(Clone, Copy, Debug, PartialEq, Eq, Structural)]
pub enum PeripheralError {
    UnsupportedEvent,
}

#[derive(Clone, Copy, Debug, PartialEq, Eq, Structural)]
pub enum UartEvent {
    ClearTxLog,
}

#[derive(Clone, Copy, Debug, PartialEq, Eq, Structural)]
pub enum BscEvent {
    /// Answer the next word read as an unacknowledged transfer would.
    ForceNack,
    Reset,
}

/// Edits of the optical module behind the I2C master.
#[derive(Clone, Copy, Debug)]
pub enum SfpEvent {
    SetTemperatureC256(i16),
    SetVccUv(u32),
    SetTxBiasUa(u32),
    SetTxPowerUw(u32),
    SetRxPowerUw(u32),
    SetVendorName([u8; 16]),
    SetSerialNumber([u8; 16]),
    SetPartNumber([u8; 16]),
}

#[derive(Clone, Copy, Debug, PartialEq, Eq, Structural)]
pub enum SerDesEvent {
    InjectRxLos(u8, bool),
}

#[derive(Clone, Copy, Debug, PartialEq, Eq, Structural)]
pub enum EponEvent {
    SetLlidActive(u8, bool),
    InjectLlidInterrupt(u8),
    ResetCounters,
}

#[derive(Clone, Copy, Debug, PartialEq, Eq, Structural)]
pub enum MacsecEvent {
    InjectPnOverflow(u8),
    ResetSaTable,
}

#[derive(Clone, Copy, Debug, PartialEq, Eq, Structural)]
pub enum DmaEvent {
    InjectQueueEntry(u8),
    InjectBusError(u8),
}

#[derive(Clone, Copy, Debug, PartialEq, Eq, Structural)]
pub enum AlarmEvent {
    ForcePending(u16),
    ClearPending(u16),
    ClearAll,
}

#[derive(Clone, Debug)]
pub enum EfuseEvent {
    SetSnapshot(Vec<u8>),
}

#[derive(Clone, Copy, Debug, PartialEq, Eq, Structural)]
pub enum FatalFilterEvent {
    InjectFatal(u32),
    ClearFatal,
    SetLinkUp(u8, bool),
}

/// An event a front end injects into the bank.
#[derive(Clone, Debug)]
pub enum PeripheralEvent {
    Uart(UartEvent),
    Bsc(BscEvent),
    Sfp(SfpEvent),
    SerDes(SerDesEvent),
    Epon(EponEvent),
    Macsec(MacsecEvent),
    Dma(DmaEvent),
    Alarm(AlarmEvent),
    Efuse(EfuseEvent),
    FatalFilter(FatalFilterEvent),
}

#[derive(Clone, Copy, Debug, PartialEq, Eq, Structural)]
pub struct BscSnapshot {
    pub busy: bool,
    pub last_device_addr: u8,
    pub last_word_addr: u16,
}

#[derive(Clone, Copy, Debug)]
pub struct SfpSnapshot {
    pub vendor: [u8; 16],
    pub serial: [u8; 16],
    pub part_number: [u8; 16],
    pub temperature_c256: i16,
    pub vcc_uv: u32,
    pub tx_bias_ua: u32,
    pub tx_power_uw: u32,
    pub rx_power_uw: u32,
}

#[derive(Clone, Copy, Debug)]
pub struct EponMacSnapshot {
    pub chip_id: u32,
    pub chip_rev: u32,
    pub llid_active_bitmap: u32,
    pub llid_capture_mask: u32,
    pub rx_grant_mask: u32,
    pub tx_grant_mask: u32,
    pub irq_mask: u32,
    pub llid_irq_pending: [u32; 6],
}

#[derive(Clone, Copy, Debug, PartialEq, Eq, Structural)]
pub struct MacsecSnapshot {
    pub control: u32,
    pub enable_mode: u32,
    pub key_engine_busy: bool,
    pub pn_threshold_busy: bool,
    pub sa_slots_programmed: u8,
    pub pn_overflow_mask: u32,
}

#[derive(Clone, Copy, Debug, PartialEq, Eq, Structural)]
pub struct DmaSnapshot {
    pub channels_enabled: u32,
    pub channels_busy: u32,
    pub irq_pending_bitmap: u32,
}

#[derive(Clone, Debug)]
pub struct AlarmSnapshot {
    pub forced_opcodes: Vec<u16>,
    pub live_opcodes: Vec<u16>,
}

#[derive(Clone, Copy, Debug, PartialEq, Eq, Structural)]
pub struct EfuseSnapshot {
    pub udr_status: u32,
    pub clock_toggles: u32,
}

#[derive(Clone, Copy, Debug, PartialEq, Eq, Structural)]
pub struct FatalFilterSnapshot {
    pub fatal_status: u32,
    pub link_up_bitmap: u32,
}

/// What a peripheral shows of itself.
#[derive(Clone, Debug)]
pub enum PeripheralSnapshot {
    Bsc(BscSnapshot),
    Sfp(SfpSnapshot),
    EponMac(EponMacSnapshot),
    Macsec(MacsecSnapshot),
    Dma(DmaSnapshot),
    Alarm(AlarmSnapshot),
    Efuse(EfuseSnapshot),
    FatalFilter(FatalFilterSnapshot),
    /// A peripheral with nothing to draw but its name.
    Empty(&'static str),
}

impl PeripheralSnapshot {
    /// The name of the peripheral it is of.
    pub open spec fn tag(self) -> Seq<char> {
        match self {
            PeripheralSnapshot::Bsc(_) => "bsc_i2c"@,
            PeripheralSnapshot::Sfp(_) => "sfp"@,
            PeripheralSnapshot::EponMac(_) => "epon_mac"@,
            PeripheralSnapshot::Macsec(_) => "macsec"@,
            PeripheralSnapshot::Dma(_) => "dma"@,
            PeripheralSnapshot::Alarm(_) => "alarm"@,
            PeripheralSnapshot::Efuse(_) => "efuse_udr"@,
            PeripheralSnapshot::FatalFilter(_) => "fatal_filter"@,
            PeripheralSnapshot::Empty(name) => name@,
        }
    }

    pub fn name(&self) -> (r: &'static str)
        ensures
            r@ == self.tag(),
    {
        match self {
            PeripheralSnapshot::Bsc(_) => "bsc_i2c",
            PeripheralSnapshot::Sfp(_) => "sfp",
            PeripheralSnapshot::EponMac(_) => "epon_mac",
            PeripheralSnapshot::Macsec(_) => "macsec",
            PeripheralSnapshot::Dma(_) => "dma",
            PeripheralSnapshot::Alarm(_) => "alarm",
            PeripheralSnapshot::Efuse(_) => "efuse_udr",
            PeripheralSnapshot::FatalFilter(_) => "fatal_filter",
            PeripheralSnapshot::Empty(name) => name,
        }
    }
}

/// A peripheral that may ask for memory to be handed back.
#[derive(Clone, Copy, Debug, PartialEq, Eq, Structural)]
pub enum PeripheralId {
    Pbc,
}

/// Work a peripheral leaves for the memory system to carry out.
#[derive(Debug)]
pub enum DatapathOp {
    /// Store bytes in SRAM, as a DMA transfer does.
    SramWrite { sram_addr: u32, data: Vec<u8> },
    /// Drop the data-cache line that covers an address.
    CacheInvalidate { addr: u32 },
    /// Hand a run of SRAM bytes back to the flash controller.
    FlashWrite { peripheral: PeripheralId, flash_addr: u32, sram_addr: u32, length: usize },
}

/// A piece of such work, as values.
#[verifier::ext_equal]
pub enum OpView {
    SramWrite { sram_addr: u32, data: Seq<u8> },
    CacheInvalidate { addr: u32 },
    FlashWrite { peripheral: PeripheralId, flash_addr: u32, sram_addr: u32, length: int },
}

impl View for DatapathOp {
    type V = OpView;

    open spec fn view(&self) -> OpView {
        match *self {
            DatapathOp::SramWrite { sram_addr, data } => OpView::SramWrite {
                sram_addr,
                data: data@,
            },
            DatapathOp::CacheInvalidate { addr } => OpView::CacheInvalidate { addr },
            DatapathOp::FlashWrite { peripheral, flash_addr, sram_addr, length } => {
                OpView::FlashWrite { peripheral, flash_addr, sram_addr, length: length as int }
            },
        }
    }
}

impl Clone for DatapathOp {
    fn clone(&self) -> (r: Self)
        ensures
            r@ == self@,
    {
        match self {
            DatapathOp::SramWrite { sram_addr, data } => {
                let copy: Vec<u8> = data.clone();
                assert(copy@ =~= data@);
                DatapathOp::SramWrite { sram_addr: *sram_addr, data: copy }
            },
            DatapathOp::CacheInvalidate { addr } => DatapathOp::CacheInvalidate { addr: *addr },
            DatapathOp::FlashWrite { peripheral, flash_addr, sram_addr, length } => {
                DatapathOp::FlashWrite {
                    peripheral: *peripheral,
                    flash_addr: *flash_addr,
                    sram_addr: *sram_addr,
                    length: *length,
                }
            },
        }
    }
}

/// A list of such work, as values.
pub open spec fn op_views(ops: Seq<DatapathOp>) -> Seq<OpView> {
    Seq::new(ops.len(), |i: int| ops[i]@)
}

/// The big-endian half-word that `addr` names inside an aligned word.
pub open spec fn half_lane(word: u32, addr: u32) -> u16 {
    if addr & 2 == 0 {
        (word >> 16) as u16
    } else {
        word as u16
    }
}

/// The big-endian byte that `addr` names inside an aligned word.
pub open spec fn byte_lane(word: u32, addr: u32) -> u8 {
    (word >> ((24 - (addr & 3) * 8) as u32)) as u8
}

/// An aligned word with one half-word lane replaced.
pub open spec fn with_half_lane(word: u32, addr: u32, val: u16) -> u32 {
    if addr & 2 == 0 {
        (word & 0x0000_FFFF) | ((val as u32) << 16)
    } else {
        (word & 0xFFFF_0000) | (val as u32)
    }
}

/// An aligned word with one byte lane replaced.
pub open spec fn with_byte_lane(word: u32, addr: u32, val: u8) -> u32 {
    let shift = (24 - (addr & 3) * 8) as u32;
    (word & !(0xFFu32 << shift)) | ((val as u32) << shift)
}

pub fn select_half(word: u32, addr: u32) -> (r: u16)
    ensures
        r == half_lane(word, addr),
{
    if addr & 2 == 0 {
        (word >> 16) as u16
    } else {
        word as u16
    }
}

pub fn select_byte(word: u32, addr: u32) -> (r: u8)
    ensures
        r == byte_lane(word, addr),
{
    proof {
        crate::bits::lemma_field_bounds(addr);
    }
    let shift: u32 = 24 - (addr & 3) * 8;
    (word >> shift) as u8
}

pub fn merge_half(word: u32, addr: u32, val: u16) -> (r: u32)
    ensures
        r == with_half_lane(word, addr, val),
{
    if addr & 2 == 0 {
        (word & 0x0000_FFFF) | ((val as u32) << 16)
    } else {
        (word & 0xFFFF_0000) | (val as u32)
    }
}

pub fn merge_byte(word: u32, addr: u32, val: u8) -> (r: u32)
    ensures
        r == with_byte_lane(word, addr, val),
{
    proof {
        crate::bits::lemma_field_bounds(addr);
    }
    let shift: u32 = 24 - (addr & 3) * 8;
    (word & !(0xFFu32 << shift)) | ((val as u32) << shift)
}

/// The lanes of a word, as numbers.
proof fn lemma_lanes(word: u32, v: u8, w: u16)
    by (bit_vector)
    ensures
        (word >> 24) as u8 == word / 0x0100_0000,
        (word >> 16) as u8 == (word / 0x1_0000) % 0x100,
        (word >> 8) as u8 == (word / 0x100) % 0x100,
        (word >> 0) as u8 == word % 0x100,
        (word >> 16) as u16 == word / 0x1_0000,
        word as u16 == word % 0x1_0000,
        (word & !(0xFFu32 << 24)) | ((v as u32) << 24) == v * 0x0100_0000 + word % 0x0100_0000,
        (word & !(0xFFu32 << 16)) | ((v as u32) << 16) == (word / 0x0100_0000) * 0x0100_0000 + v
            * 0x1_0000 + word % 0x1_0000,
        (word & !(0xFFu32 << 8)) | ((v as u32) << 8) == (word / 0x1_0000) * 0x1_0000 + v * 0x100
            + word % 0x100,
        (word & !(0xFFu32 << 0)) | ((v as u32) << 0) == (word / 0x100) * 0x100 + v,
        (word & 0x0000_FFFF) | ((w as u32) << 16) == w * 0x1_0000 + word % 0x1_0000,
        (word & 0xFFFF_0000) | (w as u32) == (word / 0x1_0000) * 0x1_0000 + w,
        word & 2 == 2 * ((word / 2) % 2),
{
}

/// The bytes of a word stand most significant first: the byte at the word's own
/// address is the highest.
pub proof fn law_bytes_stand_big_endian(word: u32, addr: u32)
    ensures
        addr % 4 == 0 ==> byte_lane(word, addr) == word / 0x0100_0000,
        addr % 4 == 1 ==> byte_lane(word, addr) == (word / 0x1_0000) % 0x100,
        addr % 4 == 2 ==> byte_lane(word, addr) == (word / 0x100) % 0x100,
        addr % 4 == 3 ==> byte_lane(word, addr) == word % 0x100,
        addr % 4 < 2 ==> half_lane(word, addr) == word / 0x1_0000,
        addr % 4 >= 2 ==> half_lane(word, addr) == word % 0x1_0000,
{
    crate::bits::lemma_round_down(addr);
    lemma_lanes(word, 0, 0);
    lemma_lanes(addr, 0, 0);
}

/// Replacing a lane puts the value in its place in the number and leaves the
/// digits around it.
pub proof fn law_replaced_lanes_stand_big_endian(word: u32, addr: u32, v: u8, w: u16)
    ensures
        addr % 4 == 0 ==> with_byte_lane(word, addr, v) == v * 0x0100_0000 + word % 0x0100_0000,
        addr % 4 == 1 ==> with_byte_lane(word, addr, v) == (word / 0x0100_0000) * 0x0100_0000 + v
            * 0x1_0000 + word % 0x1_0000,
        addr % 4 == 2 ==> with_byte_lane(word, addr, v) == (word / 0x1_0000) * 0x1_0000 + v * 0x100
            + word % 0x100,
        addr % 4 == 3 ==> with_byte_lane(word, addr, v) == (word / 0x100) * 0x100 + v,
        addr % 4 < 2 ==> with_half_lane(word, addr, w) == w * 0x1_0000 + word % 0x1_0000,
        addr % 4 >= 2 ==> with_half_lane(word, addr, w) == (word / 0x1_0000) * 0x1_0000 + w,
{
    crate::bits::lemma_round_down(addr);
    lemma_lanes(word, v, w);
    lemma_lanes(addr, 0, 0);
}

/// A half-word written into a word reads back, and the other half keeps its value.
pub proof fn law_half_lane_round_trip(word: u32, addr: u32, other: u32, val: u16)
    ensures
        half_lane(with_half_lane(word, addr, val), addr) == val,
        addr & 2 != other & 2 ==> half_lane(with_half_lane(word, addr, val), other) == half_lane(
            word,
            other,
        ),
{
    assert({
        let hi = (word & 0x0000_FFFFu32) | ((val as u32) << 16u32);
        let lo = (word & 0xFFFF_0000u32) | (val as u32);
        &&& (hi >> 16u32) as u16 == val
        &&& hi as u16 == word as u16
        &&& lo as u16 == val
        &&& (lo >> 16u32) as u16 == (word >> 16u32) as u16
    }) by (bit_vector);
    crate::bits::lemma_field_bounds(addr);
    crate::bits::lemma_field_bounds(other);
}

/// A byte written into a word reads back, and the other three bytes keep their values.
pub proof fn law_byte_lane_round_trip(word: u32, addr: u32, other: u32, val: u8)
    ensures
        byte_lane(with_byte_lane(word, addr, val), addr) == val,
        addr & 3 != other & 3 ==> byte_lane(with_byte_lane(word, addr, val), other) == byte_lane(
            word,
            other,
        ),
{
    let s = (24 - (addr & 3) * 8) as u32;
    let t = (24 - (other & 3) * 8) as u32;
    crate::bits::lemma_field_bounds(addr);
    crate::bits::lemma_field_bounds(other);
    assert((((word & !(0xFFu32 << s)) | ((val as u32) << s)) >> t) as u8 == (if s == t {
        val
    } else {
        (word >> t) as u8
    }) && (((word & !(0xFFu32 << s)) | ((val as u32) << s)) >> s) as u8 == val) by (bit_vector)
        requires
            s == 0 || s == 8 || s == 16 || s == 24,
            t == 0 || t == 8 || t == 16 || t == 24,
    ;
}

} // verus!
