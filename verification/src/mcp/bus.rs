//! The registers of the bus, as a front end looks at them and changes them.

use std::collections::HashMap;

use vstd::prelude::*;

use crate::mcp::handler::{
    DetectPatternsResult, DumpMmioTraceResult, ExplainMmioParams, ExplainMmioResult,
    GetEventTimelineParams, GetEventTimelineResult, GetMmioHistoryParams, HexValue, LastAccessJson,
    ListMmioOverridesResult, ListPeripheralsResult, MmioHistoryEntryJson, MmioHistoryResult,
    MmioOverrideEntry, MmioTraceEntryJson, OkResult, PatternEntry, PeekMmioParams, PeekMmioResult,
    PeripheralEntry, ReadMmioParams, ReadMmioResult, RemoveMmioOverrideParams,
    SetMmioHistorySizeParams, SetMmioOverrideParams, TimelineEventJson, UnhandledMmioEntry,
    UnhandledMmioResult, WriteMmioParams,
};
use crate::order::sorted_keys;
use crate::soc::access_log::{AccessLog, LogState};
use crate::soc::analysis::{build_timeline, detect_patterns};
use crate::soc::bank::{BankState, MmioHistoryEntry, MmioTraceEntry, PeripheralBank};
use crate::soc::default_store::{DefaultRegisterStore, ResidualTraceEntry};
use crate::soc::mmio_blocks;
use crate::soc::peripheral::PeripheralSnapshot;
use crate::soc::scenario::{OverrideSpec, OverrideState, OverrideTable};
use crate::text::{copy_opt, lower, same_text, string_of};

verus! {

broadcast use vstd::std_specs::hash::group_hash_axioms;

/// The name of a register, if it has one.
pub open spec fn reg_name(addr: u32) -> Option<Seq<char>> {
    match crate::soc::mmio_blocks::known(addr) {
        Some(info) => Some(info.reg_name@),
        None => None,
    }
}

/// The block a register belongs to, if that is known.
pub open spec fn reg_block(addr: u32) -> Option<Seq<char>> {
    match crate::soc::mmio_blocks::known(addr) {
        Some(info) => Some(info.block_name@),
        None => None,
    }
}

/// The names of an address, if it has any.
pub fn reg_lookup(addr: u32) -> (r: (Option<String>, Option<String>))
    ensures
        crate::text::opt_text(r.0) == reg_name(addr),
        crate::text::opt_text(r.1) == reg_block(addr),
{
    match mmio_blocks::lookup(addr) {
        Some(info) => (Some(info.reg_name.to_owned()), Some(info.block_name.to_owned())),
        None => (None, None),
    }
}

/// Look at a register without side effects.
pub fn peek_mmio(bank: &PeripheralBank, params: &PeekMmioParams) -> (r: PeekMmioResult)
    requires
        bank.wf(),
    ensures
        r.address.0 == params.address.0,
        r.value.0 == bank@.peek(params.address.0),
        crate::text::opt_text(r.name) == reg_name(params.address.0),
        crate::text::opt_text(r.block) == reg_block(params.address.0),
{
    let addr: u32 = params.address.0;
    let value: u32 = match bank.peek_word(addr) {
        Ok(v) => v,
        Err(_) => 0,
    };
    let (name, block) = reg_lookup(addr);
    PeekMmioResult { address: HexValue(addr), value: HexValue(value), name, block }
}

/// How much of a register an access touches.
#[derive(Clone, Copy, Debug, PartialEq, Eq, Structural)]
pub enum Width {
    Byte,
    Half,
    Word,
}

/// The text of a width a request asks for; words where it does not say.
pub open spec fn width_text(width: Option<Seq<char>>) -> Seq<char> {
    match width {
        Some(w) => crate::text::lowered(w),
        None => "word"@,
    }
}

/// The width a text stands for: anything that is no byte or half is a word.
pub open spec fn width_named(text: Seq<char>) -> Width {
    if text == "byte"@ {
        Width::Byte
    } else if text == "half"@ {
        Width::Half
    } else {
        Width::Word
    }
}

fn width_of(width: &Option<String>) -> (r: (Width, String))
    ensures
        r.0 == width_named(width_text(crate::text::opt_text(*width))),
        r.1@ == width_text(crate::text::opt_text(*width)),
{
    let text: String = match width {
        Some(w) => string_of(&lower(w.as_str())),
        None => String::from_str("word"),
    };
    let w = if same_text(text.as_str(), "byte") {
        Width::Byte
    } else if same_text(text.as_str(), "half") {
        Width::Half
    } else {
        Width::Word
    };
    (w, text)
}

/// Whether a register can be read so wide.
pub open spec fn can_read_wide(bank: BankState, width: Width, addr: u32) -> bool {
    match width {
        Width::Word => bank.can_read(addr) && bank.after_read(addr).can_drain(),
        _ => bank.can_read_narrow(addr),
    }
}

/// What reading a register gives; zero where nothing answers.
pub open spec fn wide_value(bank: BankState, width: Width, addr: u32) -> u32 {
    match width {
        Width::Byte => match bank.byte_result(addr) {
            Ok(v) => v as u32,
            Err(_) => 0,
        },
        Width::Half => match bank.half_result(addr) {
            Ok(v) => v as u32,
            Err(_) => 0,
        },
        Width::Word => match bank.read_result(addr) {
            Ok(v) => v,
            Err(_) => 0,
        },
    }
}

/// The bank after a register was read.
pub open spec fn after_wide_read(bank: BankState, width: Width, addr: u32) -> BankState {
    match width {
        Width::Byte => bank.after_byte_read(addr),
        Width::Half => bank.after_half_read(addr),
        Width::Word => bank.after_read(addr).drained(),
    }
}

fn read_wide(bank: &mut PeripheralBank, width: Width, addr: u32) -> (r: u32)
    requires
        old(bank).wf(),
        can_read_wide(old(bank)@, width, addr),
    ensures
        final(bank).wf(),
        r == wide_value(old(bank)@, width, addr),
        final(bank)@ == after_wide_read(old(bank)@, width, addr),
{
    match width {
        Width::Byte => match bank.read_byte(addr) {
            Ok(v) => v as u32,
            Err(_) => 0,
        },
        Width::Half => match bank.read_half(addr) {
            Ok(v) => v as u32,
            Err(_) => 0,
        },
        Width::Word => match bank.read_word(addr) {
            Ok(v) => v,
            Err(_) => 0,
        },
    }
}

/// Read a register as software would.
pub fn read_mmio(bank: &mut PeripheralBank, params: &ReadMmioParams) -> (r: ReadMmioResult)
    requires
        old(bank).wf(),
        can_read_wide(
            old(bank)@,
            width_named(width_text(crate::text::opt_text(params.width))),
            params.address.0,
        ),
    ensures
        final(bank).wf(),
        ({
            let text = width_text(crate::text::opt_text(params.width));
            &&& r.address.0 == params.address.0
            &&& r.value.0 == wide_value(old(bank)@, width_named(text), params.address.0)
            &&& r.width@ == text
            &&& crate::text::opt_text(r.name) == reg_name(params.address.0)
            &&& crate::text::opt_text(r.block) == reg_block(params.address.0)
            &&& final(bank)@ == after_wide_read(old(bank)@, width_named(text), params.address.0)
        }),
{
    let addr: u32 = params.address.0;
    let (w, width) = width_of(&params.width);
    let value: u32 = read_wide(bank, w, addr);
    let (name, block) = reg_lookup(addr);
    ReadMmioResult { address: HexValue(addr), value: HexValue(value), width, name, block }
}

/// The bank after reading a register was tried: a word read ends at the first
/// write in its wake that cannot be made.
pub open spec fn after_tried_wide_read(bank: BankState, width: Width, addr: u32) -> BankState {
    match width {
        Width::Word => bank.after_tried_read(addr),
        _ => if can_read_wide(bank, width, addr) {
            after_wide_read(bank, width, addr)
        } else {
            bank
        },
    }
}

/// Read a register as software would, if that and all it sets off can be done.
pub fn try_read_mmio(bank: &mut PeripheralBank, params: &ReadMmioParams) -> (r: Option<
    ReadMmioResult,
>)
    requires
        old(bank).wf(),
    ensures
        final(bank).wf(),
        ({
            let text = width_text(crate::text::opt_text(params.width));
            let width = width_named(text);
            &&& r is Some <==> can_read_wide(old(bank)@, width, params.address.0)
            &&& final(bank)@ == after_tried_wide_read(old(bank)@, width, params.address.0)
            &&& r is Some ==> final(bank)@ == after_wide_read(old(bank)@, width, params.address.0)
            &&& r matches Some(a) ==> {
                &&& a.address.0 == params.address.0
                &&& a.value.0 == wide_value(old(bank)@, width, params.address.0)
                &&& a.width@ == text
                &&& crate::text::opt_text(a.name) == reg_name(params.address.0)
                &&& crate::text::opt_text(a.block) == reg_block(params.address.0)
            }
        }),
{
    let addr: u32 = params.address.0;
    let (w, width) = width_of(&params.width);
    let value: u32 = if let Width::Word = w {
        proof {
            if bank@.can_read(addr) && bank@.after_read(addr).can_drain() {
                crate::soc::bank::checks::law_passable_writes_all_go_through(
                    bank@.after_read(addr),
                );
            }
        }
        match bank.try_read_word(addr) {
            Some(Ok(v)) => v,
            Some(Err(_)) => 0,
            None => return None,
        }
    } else {
        if !bank.lets_read_narrow(addr) {
            return None;
        }
        read_wide(bank, w, addr)
    };
    let (name, block) = reg_lookup(addr);
    Some(ReadMmioResult { address: HexValue(addr), value: HexValue(value), width, name, block })
}

/// Whether a register can be written so wide.
pub open spec fn can_write_wide(bank: BankState, width: Width, addr: u32, val: u32) -> bool {
    match width {
        Width::Byte => bank.can_write_byte(addr, val as u8),
        Width::Half => bank.can_write_half(addr, val as u16),
        Width::Word => bank.can_write(addr, val) && bank.after_write(addr, val).can_drain(),
    }
}

/// The bank after a register was written; a narrow write takes the low bits.
pub open spec fn after_wide_write(bank: BankState, width: Width, addr: u32, val: u32) -> BankState {
    match width {
        Width::Byte => bank.after_byte_write(addr, val as u8),
        Width::Half => bank.after_half_write(addr, val as u16),
        Width::Word => bank.after_write(addr, val).drained(),
    }
}

/// Write a register as software would.
pub fn write_mmio(bank: &mut PeripheralBank, params: &WriteMmioParams) -> (r: OkResult)
    requires
        old(bank).wf(),
        can_write_wide(
            old(bank)@,
            width_named(width_text(crate::text::opt_text(params.width))),
            params.address.0,
            params.value.0,
        ),
    ensures
        final(bank).wf(),
        r.ok,
        final(bank)@ == after_wide_write(
            old(bank)@,
            width_named(width_text(crate::text::opt_text(params.width))),
            params.address.0,
            params.value.0,
        ),
{
    let addr: u32 = params.address.0;
    let val: u32 = params.value.0;
    let (w, _) = width_of(&params.width);
    match w {
        Width::Byte => {
            let _ = bank.write_byte(addr, #[verifier::truncate] (val as u8));
        },
        Width::Half => {
            let _ = bank.write_half(addr, #[verifier::truncate] (val as u16));
        },
        Width::Word => {
            let _ = bank.write_word(addr, val);
        },
    }
    OkResult { ok: true }
}

/// The bank after writing a register was tried: a word write ends at the first
/// write in its wake that cannot be made.
pub open spec fn after_tried_wide_write(bank: BankState, width: Width, addr: u32, val: u32) -> BankState {
    match width {
        Width::Word => bank.after_tried_write(addr, val),
        _ => if can_write_wide(bank, width, addr, val) {
            after_wide_write(bank, width, addr, val)
        } else {
            bank
        },
    }
}

/// Write a register as software would, if that and all it sets off can be done.
pub fn try_write_mmio(bank: &mut PeripheralBank, params: &WriteMmioParams) -> (r: Option<OkResult>)
    requires
        old(bank).wf(),
    ensures
        final(bank).wf(),
        ({
            let width = width_named(width_text(crate::text::opt_text(params.width)));
            let (addr, val) = (params.address.0, params.value.0);
            &&& r is Some <==> can_write_wide(old(bank)@, width, addr, val)
            &&& final(bank)@ == after_tried_wide_write(old(bank)@, width, addr, val)
            &&& r is Some ==> final(bank)@ == after_wide_write(old(bank)@, width, addr, val)
            &&& r matches Some(a) ==> a.ok
        }),
{
    let addr: u32 = params.address.0;
    let val: u32 = params.value.0;
    let (w, _) = width_of(&params.width);
    if let Width::Word = w {
        proof {
            if bank@.can_write(addr, val) && bank@.after_write(addr, val).can_drain() {
                crate::soc::bank::checks::law_passable_writes_all_go_through(
                    bank@.after_write(addr, val),
                );
            }
        }
        return match bank.try_write_word(addr, val) {
            Some(_) => Some(OkResult { ok: true }),
            None => None,
        };
    }
    let fits: bool = match w {
        Width::Byte => bank.takes_byte(addr, #[verifier::truncate] (val as u8)),
        _ => bank.takes_half(addr, #[verifier::truncate] (val as u16)),
    };
    if fits {
        Some(write_mmio(bank, params))
    } else {
        None
    }
}

/// Whether what is told of the last access is what is remembered.
pub open spec fn tells_access(
    shown: Option<LastAccessJson>,
    kept: Option<crate::soc::access_log::LastAccessInfo>,
) -> bool {
    match (shown, kept) {
        (Some(s), Some(k)) => {
            &&& s.pc.0 == k.pc
            &&& s.blink.0 == k.blink
            &&& s.insn == k.insn
            &&& s.direction@ == k.direction@
            &&& s.value.0 == k.value
        },
        (None, None) => true,
        _ => false,
    }
}

/// Say everything that is known of a register.
pub fn explain_mmio(bank: &PeripheralBank, params: &ExplainMmioParams) -> (r: ExplainMmioResult)
    requires
        bank.wf(),
    ensures
        ({
            let addr = params.address.0;
            let info = crate::soc::mmio_blocks::known(addr);
            &&& r.address.0 == addr
            &&& r.value.0 == bank@.peek(addr)
            &&& crate::text::opt_text(r.name) == reg_name(addr)
            &&& crate::text::opt_text(r.block) == reg_block(addr)
            &&& crate::text::opt_text(r.access) == (match info {
                Some(i) => Some(i.access@),
                None => None,
            })
            &&& crate::text::opt_text(r.description) == (match info {
                Some(i) => Some(i.desc@),
                None => None,
            })
            &&& r.has_override == crate::soc::scenario::override_answer(
                bank@.dev.scenario.overrides,
                addr,
            ) is Some
            &&& tells_access(
                r.last_access,
                crate::soc::access_log::record_of(bank@.log.last, addr),
            )
            &&& crate::text::opt_text(r.peripheral) == (if bank@.dev.owner(
                addr,
                true,
            ) is Unmapped {
                None
            } else {
                Some(bank@.dev.owner(addr, true).tag()@)
            })
        }),
{
    let addr: u32 = params.address.0;
    let value: u32 = match bank.peek_word(addr) {
        Ok(v) => v,
        Err(_) => 0,
    };
    let (name, block) = reg_lookup(addr);
    let info = mmio_blocks::lookup(addr);
    let access: Option<String> = match info {
        Some(i) => Some(i.access.to_owned()),
        None => None,
    };
    let description: Option<String> = match info {
        Some(i) => Some(i.desc.to_owned()),
        None => None,
    };
    let has_override: bool = bank.scenario.overrides.peek_read(addr).is_some();
    let peripheral: Option<String> = match bank.peripheral_for(addr) {
        Some(p) => Some(p.to_owned()),
        None => None,
    };
    let last_access: Option<LastAccessJson> = match bank.log.last_access_of(addr) {
        Some(la) => Some(
            LastAccessJson {
                pc: HexValue(la.pc),
                blink: HexValue(la.blink),
                insn: la.insn,
                direction: la.direction.to_owned(),
                value: HexValue(la.value),
            },
        ),
        None => None,
    };
    ExplainMmioResult {
        address: HexValue(addr),
        value: HexValue(value),
        name,
        block,
        access,
        description,
        has_override,
        last_access,
        peripheral,
    }
}

/// The override a request asks for, if it asks for one there is.
pub open spec fn asked_override(params: SetMmioOverrideParams) -> Option<OverrideSpec> {
    if params.mode@ == "static"@ {
        Some(OverrideSpec::StaticRead { value: params.value.0 })
    } else if params.mode@ == "oneshot"@ {
        Some(OverrideSpec::OneShotRead { value: params.value.0, remaining: params.count })
    } else if params.mode@ == "mask"@ {
        Some(OverrideSpec::MaskedWriteIgnore { mask: params.value.0 })
    } else {
        None
    }
}

/// Put an override in front of a register.
pub fn set_mmio_override(overrides: &mut OverrideTable, params: SetMmioOverrideParams) -> (r:
    OkResult)
    ensures
        r.ok == asked_override(params) is Some,
        match asked_override(params) {
            Some(spec) => final(overrides)@ == old(overrides)@.with(
                params.address.0,
                spec,
                params.label,
            ),
            None => *final(overrides) == *old(overrides),
        },
{
    let spec: OverrideSpec = if same_text(params.mode.as_str(), "static") {
        OverrideSpec::StaticRead { value: params.value.0 }
    } else if same_text(params.mode.as_str(), "oneshot") {
        OverrideSpec::OneShotRead { value: params.value.0, remaining: params.count }
    } else if same_text(params.mode.as_str(), "mask") {
        OverrideSpec::MaskedWriteIgnore { mask: params.value.0 }
    } else {
        return OkResult { ok: false };
    };
    overrides.set(params.address.0, spec, params.label);
    OkResult { ok: true }
}

/// Take an override away. It went well where there was one.
pub fn remove_mmio_override(overrides: &mut OverrideTable, params: &RemoveMmioOverrideParams) -> (r:
    OkResult)
    ensures
        r.ok == old(overrides)@.specs.dom().contains(params.address.0),
        final(overrides)@ == old(overrides)@.without(params.address.0),
{
    OkResult { ok: overrides.remove(params.address.0) }
}

/// The name of the way an override works.
pub open spec fn override_mode(spec: OverrideSpec) -> Seq<char> {
    match spec {
        OverrideSpec::StaticRead { value } => "static"@,
        OverrideSpec::OneShotRead { value, remaining } => "oneshot"@,
        OverrideSpec::MaskedWriteIgnore { mask } => "mask"@,
    }
}

/// The word of an override: what it answers, or what it masks.
pub open spec fn override_word(spec: OverrideSpec) -> u32 {
    match spec {
        OverrideSpec::StaticRead { value } => value,
        OverrideSpec::OneShotRead { value, remaining } => value,
        OverrideSpec::MaskedWriteIgnore { mask } => mask,
    }
}

/// The reads a one-shot override still answers.
pub open spec fn override_left(spec: OverrideSpec) -> Option<u32> {
    match spec {
        OverrideSpec::OneShotRead { value, remaining } => Some(remaining),
        _ => None,
    }
}

/// Whether an entry shows the override of an address.
pub open spec fn shows_override(e: MmioOverrideEntry, table: OverrideState, addr: u32) -> bool {
    &&& e.address.0 == addr
    &&& e.mode@ == override_mode(table.specs[addr])
    &&& e.value.0 == override_word(table.specs[addr])
    &&& e.remaining == override_left(table.specs[addr])
    &&& crate::text::opt_text(e.label) == (if table.labels.dom().contains(addr) {
        Some(table.labels[addr]@)
    } else {
        None
    })
    &&& crate::text::opt_text(e.name) == reg_name(addr)
    &&& crate::text::opt_text(e.block) == reg_block(addr)
}

fn show_override(table: &OverrideTable, addr: u32) -> (r: MmioOverrideEntry)
    requires
        table@.specs.dom().contains(addr),
    ensures
        shows_override(r, table@, addr),
{
    let spec: OverrideSpec = match table.specs.get(&addr) {
        Some(s) => *s,
        None => OverrideSpec::StaticRead { value: 0 },
    };
    let (mode, value, remaining): (&str, u32, Option<u32>) = match spec {
        OverrideSpec::StaticRead { value } => ("static", value, None),
        OverrideSpec::OneShotRead { value, remaining } => ("oneshot", value, Some(remaining)),
        OverrideSpec::MaskedWriteIgnore { mask } => ("mask", mask, None),
    };
    let label: Option<String> = match table.labels.get(&addr) {
        Some(text) => Some(text.clone()),
        None => None,
    };
    let (name, block) = reg_lookup(addr);
    MmioOverrideEntry {
        address: HexValue(addr),
        mode: mode.to_owned(),
        value: HexValue(value),
        remaining,
        label,
        name,
        block,
    }
}

/// The addresses of entries.
pub open spec fn override_addresses(entries: Seq<MmioOverrideEntry>) -> Seq<u32> {
    Seq::new(entries.len(), |i: int| entries[i].address.0)
}

/// List the overrides by address.
pub fn list_mmio_overrides(table: &OverrideTable) -> (r: ListMmioOverridesResult)
    ensures
        r.count == r.overrides@.len(),
        crate::order::lists(override_addresses(r.overrides@), table@.specs.dom()),
        forall|i: int|
            0 <= i < r.overrides@.len() ==> shows_override(
                #[trigger] r.overrides@[i],
                table@,
                override_addresses(r.overrides@)[i],
            ),
{
    let keys = sorted_keys(&table.specs);
    let mut out: Vec<MmioOverrideEntry> = Vec::new();
    for i in 0..keys.len()
        invariant
            crate::order::lists(keys@, table@.specs.dom()),
            out@.len() == i,
            forall|k: int| 0 <= k < i ==> shows_override(#[trigger] out@[k], table@, keys@[k]),
    {
        assert(table@.specs.dom().contains(keys@[i as int]));
        out.push(show_override(table, keys[i]));
    }
    assert(override_addresses(out@) =~= keys@);
    ListMmioOverridesResult { count: out.len(), overrides: out }
}

/// Whether an entry shows what a trace holds of an address.
pub open spec fn shows_trace(e: MmioTraceEntryJson, kept: MmioTraceEntry, addr: u32) -> bool {
    &&& e.address.0 == addr
    &&& e.peripheral@ == kept.peripheral@
    &&& e.reads == kept.reads
    &&& e.writes == kept.writes
    &&& e.last_read_value.0 == kept.last_read_value
    &&& e.last_write_value.0 == kept.last_write_value
    &&& e.first_pc.0 == kept.first_pc
    &&& e.first_insn == kept.first_insn
    &&& e.access_widths == kept.access_widths
    &&& crate::text::opt_text(e.name) == reg_name(addr)
    &&& crate::text::opt_text(e.block) == reg_block(addr)
}

pub open spec fn trace_addresses(entries: Seq<MmioTraceEntryJson>) -> Seq<u32> {
    Seq::new(entries.len(), |i: int| entries[i].address.0)
}

fn show_trace(kept: &MmioTraceEntry, addr: u32) -> (r: MmioTraceEntryJson)
    ensures
        shows_trace(r, *kept, addr),
{
    let (name, block) = reg_lookup(addr);
    MmioTraceEntryJson {
        address: HexValue(addr),
        peripheral: kept.peripheral.to_owned(),
        reads: kept.reads,
        writes: kept.writes,
        last_read_value: HexValue(kept.last_read_value),
        last_write_value: HexValue(kept.last_write_value),
        first_pc: HexValue(kept.first_pc),
        first_insn: kept.first_insn,
        access_widths: kept.access_widths,
        name,
        block,
    }
}

/// Show the trace of the bus by address, if one is kept.
pub fn dump_mmio_trace(bank: &PeripheralBank) -> (r: DumpMmioTraceResult)
    ensures
        r.enabled == bank@.mmio_trace is Some,
        match bank@.mmio_trace {
            None => r.entries@.len() == 0,
            Some(m) => {
                &&& crate::order::lists(trace_addresses(r.entries@), m.dom())
                &&& forall|i: int|
                    0 <= i < r.entries@.len() ==> shows_trace(
                        #[trigger] r.entries@[i],
                        m[trace_addresses(r.entries@)[i]],
                        trace_addresses(r.entries@)[i],
                    )
            },
        },
{
    let mut out: Vec<MmioTraceEntryJson> = Vec::new();
    match &bank.mmio_trace {
        None => DumpMmioTraceResult { enabled: false, entries: out },
        Some(m) => {
            let keys = sorted_keys(m);
            for i in 0..keys.len()
                invariant
                    crate::order::lists(keys@, m@.dom()),
                    out@.len() == i,
                    forall|k: int|
                        0 <= k < i ==> shows_trace(#[trigger] out@[k], m@[keys@[k]], keys@[k]),
            {
                assert(m@.dom().contains(keys@[i as int]));
                if let Some(kept) = m.get(&keys[i]) {
                    out.push(show_trace(kept, keys[i]));
                }
            }
            assert(trace_addresses(out@) =~= keys@);
            DumpMmioTraceResult { enabled: true, entries: out }
        },
    }
}

/// Whether an entry shows what the residual store counted at an address.
pub open spec fn shows_unhandled(e: UnhandledMmioEntry, kept: ResidualTraceEntry, addr: u32) -> bool {
    &&& e.address.0 == addr
    &&& e.reads == kept.reads
    &&& e.writes == kept.writes
    &&& e.last_read_value.0 == kept.last_read_value
    &&& e.last_write_value.0 == kept.last_write_value
    &&& e.first_pc.0 == kept.first_pc
    &&& e.first_insn == kept.first_insn
    &&& crate::text::opt_text(e.name) == reg_name(addr)
    &&& crate::text::opt_text(e.block) == reg_block(addr)
}

pub open spec fn unhandled_addresses(entries: Seq<UnhandledMmioEntry>) -> Seq<u32> {
    Seq::new(entries.len(), |i: int| entries[i].address.0)
}

fn show_unhandled(kept: &ResidualTraceEntry, addr: u32) -> (r: UnhandledMmioEntry)
    ensures
        shows_unhandled(r, *kept, addr),
{
    let (name, block) = reg_lookup(addr);
    UnhandledMmioEntry {
        address: HexValue(addr),
        reads: kept.reads,
        writes: kept.writes,
        last_read_value: HexValue(kept.last_read_value),
        last_write_value: HexValue(kept.last_write_value),
        first_pc: HexValue(kept.first_pc),
        first_insn: kept.first_insn,
        name,
        block,
    }
}

/// Show the accesses no peripheral claimed, by address.
pub fn get_unhandled_mmio(store: &DefaultRegisterStore) -> (r: UnhandledMmioResult)
    ensures
        r.count == r.entries@.len(),
        match store@.trace {
            None => r.entries@.len() == 0,
            Some(m) => {
                &&& crate::order::lists(unhandled_addresses(r.entries@), m.dom())
                &&& forall|i: int|
                    0 <= i < r.entries@.len() ==> shows_unhandled(
                        #[trigger] r.entries@[i],
                        m[unhandled_addresses(r.entries@)[i]],
                        unhandled_addresses(r.entries@)[i],
                    )
            },
        },
{
    let mut out: Vec<UnhandledMmioEntry> = Vec::new();
    if let Some(m) = &store.trace {
        let keys = sorted_keys(m);
        for i in 0..keys.len()
            invariant
                crate::order::lists(keys@, m@.dom()),
                out@.len() == i,
                forall|k: int|
                    0 <= k < i ==> shows_unhandled(#[trigger] out@[k], m@[keys@[k]], keys@[k]),
        {
            assert(m@.dom().contains(keys@[i as int]));
            if let Some(kept) = m.get(&keys[i]) {
                out.push(show_unhandled(kept, keys[i]));
            }
        }
        assert(unhandled_addresses(out@) =~= keys@);
    }
    UnhandledMmioResult { count: out.len(), entries: out }
}

/// Accesses shown where a request does not say how many.
pub const HISTORY_LIMIT: usize = 100;

/// The accesses a request asks for.
pub open spec fn wanted(params: GetMmioHistoryParams) -> spec_fn(MmioHistoryEntry) -> bool {
    |e: MmioHistoryEntry|
        {
            &&& (params.address matches Some(a) ==> e.address == a.0)
            &&& (params.from_insn matches Some(from) ==> from <= e.insn)
            &&& (params.to_insn matches Some(to) ==> e.insn <= to)
        }
}

/// The tail of a list, or all of it where it is shorter.
pub open spec fn tail<T>(s: Seq<T>, n: int) -> Seq<T> {
    if s.len() <= n {
        s
    } else {
        s.skip(s.len() - n)
    }
}

/// The accesses a request is shown: of the newest it asks for, the first that
/// fit, up to its limit.
pub open spec fn asked_history(
    history: Seq<MmioHistoryEntry>,
    params: GetMmioHistoryParams,
) -> Seq<MmioHistoryEntry> {
    crate::mcp::worker::head(
        (match params.last {
            Some(n) => tail(history, n as int),
            None => history,
        }).filter(wanted(params)),
        match params.limit {
            Some(n) => n as int,
            None => HISTORY_LIMIT as int,
        },
    )
}

/// Whether an entry shows an access.
pub open spec fn shows_access(e: MmioHistoryEntryJson, a: MmioHistoryEntry) -> bool {
    &&& e.insn == a.insn
    &&& e.pc.0 == a.pc
    &&& e.blink.0 == a.blink
    &&& e.address.0 == a.address
    &&& e.value.0 == a.value
    &&& e.direction@ == a.direction@
    &&& e.width@ == a.width@
    &&& e.peripheral@ == a.peripheral@
    &&& crate::text::opt_text(e.name) == reg_name(a.address)
    &&& crate::text::opt_text(e.block) == reg_block(a.address)
}

fn show_access(a: &MmioHistoryEntry) -> (r: MmioHistoryEntryJson)
    ensures
        shows_access(r, *a),
{
    let (name, block) = reg_lookup(a.address);
    MmioHistoryEntryJson {
        insn: a.insn,
        pc: HexValue(a.pc),
        blink: HexValue(a.blink),
        address: HexValue(a.address),
        value: HexValue(a.value),
        direction: a.direction.to_owned(),
        width: a.width.to_owned(),
        peripheral: a.peripheral.to_owned(),
        name,
        block,
    }
}

fn fits(e: &MmioHistoryEntry, params: &GetMmioHistoryParams) -> (r: bool)
    ensures
        r == wanted(*params)(*e),
{
    if let Some(a) = params.address {
        if e.address != a.0 {
            return false;
        }
    }
    if let Some(from) = params.from_insn {
        if e.insn < from {
            return false;
        }
    }
    if let Some(to) = params.to_insn {
        if e.insn > to {
            return false;
        }
    }
    true
}

/// More accesses do not change the head of those that fit.
proof fn lemma_head_kept<T>(s: Seq<T>, k: int, f: spec_fn(T) -> bool, n: int)
    requires
        0 <= k <= s.len(),
        0 <= n <= s.take(k).filter(f).len(),
    ensures
        s.filter(f).len() >= n,
        s.filter(f).take(n) == s.take(k).filter(f).take(n),
    decreases s.len() - k,
{
    reveal(Seq::filter);
    if k == s.len() {
        assert(s.take(k) =~= s);
    } else {
        assert(s.take(k + 1).drop_last() =~= s.take(k));
        assert(s.take(k + 1).filter(f).take(n) =~= s.take(k).filter(f).take(n));
        lemma_head_kept(s, k + 1, f, n);
    }
}

fn pick_history(log: &AccessLog, params: &GetMmioHistoryParams) -> (r: Vec<MmioHistoryEntry>)
    ensures
        r@ == asked_history(log@.history, *params),
{
    let total: usize = log.mmio_history.len();
    let limit: usize = match params.limit {
        Some(n) => n,
        None => HISTORY_LIMIT,
    };
    let skip: usize = match params.last {
        Some(n) => if total > n {
            total - n
        } else {
            0
        },
        None => 0,
    };
    let ghost source = log@.history.skip(skip as int);
    let ghost keep = wanted(*params);
    assert(source =~= (match params.last {
        Some(n) => tail(log@.history, n as int),
        None => log@.history,
    }));
    let mut out: Vec<MmioHistoryEntry> = Vec::new();
    proof {
        reveal(Seq::filter);
        assert(source.take(0) =~= Seq::<MmioHistoryEntry>::empty());
    }
    let mut i: usize = skip;
    while i < total && out.len() < limit
        invariant
            total == log@.history.len(),
            skip <= i <= total,
            source == log@.history.skip(skip as int),
            keep == wanted(*params),
            out@ == source.take(i - skip).filter(keep),
            out@.len() <= limit,
        decreases total - i,
    {
        proof {
            reveal(Seq::filter);
            assert(source.take(i + 1 - skip).drop_last() =~= source.take(i - skip));
            assert(source.take(i + 1 - skip).last() == log@.history[i as int]);
        }
        let e: MmioHistoryEntry = log.mmio_history[i];
        if fits(&e, params) {
            out.push(e);
        }
        i = i + 1;
    }
    proof {
        if i == total {
            assert(source.take(i - skip) =~= source);
        } else {
            lemma_head_kept(source, i - skip, keep, limit as int);
            assert(out@.take(limit as int) =~= out@);
        }
        let all = source.filter(keep);
        if all.len() <= limit {
            if i < total {
                assert(all.take(limit as int) =~= all);
            }
        } else {
            assert(i < total);
        }
        assert(out@ =~= crate::mcp::worker::head(all, limit as int));
    }
    out
}

/// Show recent accesses.
pub fn get_mmio_history(log: &AccessLog, params: &GetMmioHistoryParams) -> (r: MmioHistoryResult)
    ensures
        r.total_in_buffer == log@.history.len(),
        r.returned == r.entries@.len(),
        ({
            let asked = asked_history(log@.history, *params);
            &&& r.entries@.len() == asked.len()
            &&& forall|i: int|
                0 <= i < asked.len() ==> shows_access(#[trigger] r.entries@[i], asked[i])
        }),
{
    let picked = pick_history(log, params);
    let mut out: Vec<MmioHistoryEntryJson> = Vec::new();
    for i in 0..picked.len()
        invariant
            out@.len() == i,
            forall|k: int| 0 <= k < i ==> shows_access(#[trigger] out@[k], picked@[k]),
    {
        out.push(show_access(&picked[i]));
    }
    MmioHistoryResult {
        total_in_buffer: log.mmio_history.len(),
        returned: out.len(),
        entries: out,
    }
}

/// Set how many accesses are kept. The oldest go where there are more.
pub fn set_mmio_history_size(log: &mut AccessLog, params: &SetMmioHistorySizeParams) -> (r:
    OkResult)
    ensures
        r.ok,
        final(log)@ == (LogState {
            history: tail(old(log)@.history, params.size as int),
            history_max: params.size as int,
            ..old(log)@
        }),
{
    let size: usize = params.size;
    log.mmio_history_max = size;
    let ghost start = old(log)@;
    while log.mmio_history.len() > size
        invariant
            size == params.size,
            start == old(log)@,
            log@.history.len() <= start.history.len(),
            log@.history == start.history.skip(start.history.len() - log@.history.len()),
            start.history.len() > size ==> log@.history.len() >= size,
            start.history.len() <= size ==> log@.history == start.history,
            log@ == (LogState {
                history: log@.history,
                history_max: size as int,
                ..start
            }),
        decreases log@.history.len(),
    {
        let ghost before = log@.history;
        let _ = log.mmio_history.pop_front();
        assert(log@.history =~= before.skip(1));
        assert(log@.history =~= start.history.skip(
            start.history.len() - log@.history.len(),
        ));
    }
    assert(log@.history =~= tail(start.history, size as int));
    OkResult { ok: true }
}

/// Forget the accesses.
pub fn clear_mmio_history(log: &mut AccessLog) -> (r: OkResult)
    ensures
        r.ok,
        final(log)@ == (LogState { history: Seq::empty(), ..old(log)@ }),
{
    log.mmio_history.clear();
    assert(log@.history =~= Seq::empty());
    OkResult { ok: true }
}

fn copy_history(log: &AccessLog) -> (r: Vec<MmioHistoryEntry>)
    ensures
        r@ == log@.history,
{
    let total: usize = log.mmio_history.len();
    let mut out: Vec<MmioHistoryEntry> = Vec::new();
    for i in 0..total
        invariant
            total == log@.history.len(),
            out@ == log@.history.take(i as int),
    {
        out.push(log.mmio_history[i]);
        assert(out@ =~= log@.history.take(i + 1));
    }
    assert(out@ =~= log@.history);
    out
}

/// An address that may be missing, as values.
pub open spec fn opt_word(v: Option<HexValue>) -> Option<u32> {
    match v {
        Some(h) => Some(h.0),
        None => None,
    }
}

fn opt_hex(v: Option<u32>) -> (r: Option<HexValue>)
    ensures
        opt_word(r) == v,
{
    match v {
        Some(x) => Some(HexValue(x)),
        None => None,
    }
}

/// Listed patterns, as values.
pub open spec fn listed_patterns(entries: Seq<PatternEntry>) -> Seq<
    crate::soc::analysis::PatternView,
> {
    Seq::new(
        entries.len(),
        |i: int|
            crate::soc::analysis::PatternView {
                kind: entries[i].pattern_type@,
                address: entries[i].address.0,
                secondary_address: opt_word(entries[i].secondary_address),
                count: entries[i].count as int,
                value: opt_word(entries[i].value),
                first_pc: entries[i].first_pc.0,
                last_pc: entries[i].last_pc.0,
                first_insn: entries[i].first_insn,
                last_insn: entries[i].last_insn,
            },
    )
}

/// Find patterns in the recent accesses.
pub fn detect_mmio_patterns(log: &AccessLog) -> (r: DetectPatternsResult)
    ensures
        r.count == r.patterns@.len(),
        crate::soc::analysis::stable_order(
            crate::soc::analysis::all_patterns(log@.history),
            listed_patterns(r.patterns@),
        ),
{
    let history = copy_history(log);
    let raw = detect_patterns(history.as_slice());
    let mut out: Vec<PatternEntry> = Vec::new();
    let ghost found = crate::soc::analysis::views(raw@);
    for i in 0..raw.len()
        invariant
            found == crate::soc::analysis::views(raw@),
            listed_patterns(out@) == found.take(i as int),
    {
        let ghost before = listed_patterns(out@);
        out.push(
            PatternEntry {
                pattern_type: raw[i].pattern_type.clone(),
                address: HexValue(raw[i].address),
                secondary_address: opt_hex(raw[i].secondary_address),
                count: raw[i].count,
                value: opt_hex(raw[i].value),
                first_pc: HexValue(raw[i].first_pc),
                last_pc: HexValue(raw[i].last_pc),
                first_insn: raw[i].first_insn,
                last_insn: raw[i].last_insn,
            },
        );
        assert(listed_patterns(out@) =~= before.push(found[i as int]));
        assert(found.take(i + 1) =~= found.take(i as int).push(found[i as int]));
    }
    assert(found.take(raw@.len() as int) =~= found);
    DetectPatternsResult { count: out.len(), patterns: out }
}

/// Listed events, as values.
pub open spec fn listed_events(entries: Seq<TimelineEventJson>) -> Seq<
    crate::soc::analysis::EventView,
> {
    Seq::new(
        entries.len(),
        |i: int|
            crate::soc::analysis::EventView {
                kind: entries[i].event_type@,
                block: crate::text::opt_text(entries[i].block),
                address: entries[i].address.0,
                from_insn: entries[i].from_insn,
                to_insn: entries[i].to_insn,
                access_count: entries[i].access_count as int,
                summary: entries[i].summary@,
            },
    )
}

/// Draw the recent accesses as a timeline.
pub fn get_event_timeline(log: &AccessLog, params: &GetEventTimelineParams) -> (r:
    GetEventTimelineResult)
    ensures
        r.count == r.events@.len(),
        listed_events(r.events@) == crate::soc::analysis::burst_events(
            log@.history.filter(
                crate::soc::analysis::inside(params.from_insn, params.to_insn),
            ),
            0,
        ),
{
    let history = copy_history(log);
    let raw = build_timeline(history.as_slice(), params.from_insn, params.to_insn);
    let mut out: Vec<TimelineEventJson> = Vec::new();
    let ghost found = crate::soc::analysis::event_views(raw@);
    for i in 0..raw.len()
        invariant
            found == crate::soc::analysis::event_views(raw@),
            listed_events(out@) == found.take(i as int),
    {
        let ghost before = listed_events(out@);
        out.push(
            TimelineEventJson {
                event_type: raw[i].event_type.clone(),
                block: copy_opt(&raw[i].block),
                address: HexValue(raw[i].address),
                from_insn: raw[i].from_insn,
                to_insn: raw[i].to_insn,
                access_count: raw[i].access_count,
                summary: raw[i].summary.clone(),
            },
        );
        assert(listed_events(out@) =~= before.push(found[i as int]));
        assert(found.take(i + 1) =~= found.take(i as int).push(found[i as int]));
    }
    assert(found.take(raw@.len() as int) =~= found);
    GetEventTimelineResult { count: out.len(), events: out }
}

/// Number and name the peripherals. What each shows of itself is the front
/// end's to draw.
pub fn list_peripherals(snapshots: &Vec<PeripheralSnapshot>) -> (r: ListPeripheralsResult)
    ensures
        r.peripherals@.len() == snapshots@.len(),
        forall|i: int|
            0 <= i < snapshots@.len() ==> (#[trigger] r.peripherals@[i]).index == i
                && r.peripherals@[i].name@ == snapshots@[i].tag(),
{
    let mut out: Vec<PeripheralEntry> = Vec::new();
    for i in 0..snapshots.len()
        invariant
            out@.len() == i,
            forall|k: int|
                0 <= k < i ==> (#[trigger] out@[k]).index == k && out@[k].name@
                    == snapshots@[k].tag(),
    {
        out.push(PeripheralEntry { index: i, name: snapshots[i].name().to_owned() });
    }
    ListPeripheralsResult { peripherals: out }
}

/// The history is never longer than it was asked to be.
pub proof fn law_history_size_is_kept(history: Seq<MmioHistoryEntry>, size: int)
    requires
        size >= 0,
    ensures
        tail(history, size).len() <= size,
        tail(history, size).is_suffix_of(history),
{
}

/// No more accesses are shown than a request allows, and each of them fits it.
pub proof fn law_shown_history_fits(
    history: Seq<MmioHistoryEntry>,
    params: GetMmioHistoryParams,
    i: int,
)
    requires
        0 <= i < asked_history(history, params).len(),
    ensures
        wanted(params)(asked_history(history, params)[i]),
        history.contains(asked_history(history, params)[i]),
        asked_history(history, params).len() <= (match params.limit {
            Some(n) => n as int,
            None => HISTORY_LIMIT as int,
        }),
{
    let source = match params.last {
        Some(n) => tail(history, n as int),
        None => history,
    };
    let e = asked_history(history, params)[i];
    assert(source.filter(wanted(params))[i] == e);
    source.lemma_filter_pred(wanted(params), i);
    source.lemma_filter_contains_rev(wanted(params), e);
    let j = choose|j: int| 0 <= j < source.len() && source[j] == e;
    assert(history.contains(e)) by {
        if source == history {
            assert(history[j] == e);
        } else {
            let off = history.len() - source.len();
            assert(history[off + j] == e);
        }
    }
}

/// What an override is shown as asks for the same override again.
pub proof fn law_shown_override_asks_for_itself(params: SetMmioOverrideParams, spec: OverrideSpec)
    requires
        params.mode@ == override_mode(spec),
        params.value.0 == override_word(spec),
        override_left(spec) matches Some(n) ==> params.count == n,
    ensures
        asked_override(params) == Some(spec),
{
    reveal_strlit("static");
    reveal_strlit("oneshot");
    reveal_strlit("mask");
    assert("static"@.len() == 6 && "oneshot"@.len() == 7 && "mask"@.len() == 4);
}

/// The modes of an override: one answers every read with the value, one so many
/// of them, and one masks writes with it. No other mode makes one.
pub proof fn law_override_modes(params: SetMmioOverrideParams)
    ensures
        params.mode@ == "static"@ ==> asked_override(params) == Some(
            OverrideSpec::StaticRead { value: params.value.0 },
        ),
        params.mode@ == "oneshot"@ ==> asked_override(params) == Some(
            OverrideSpec::OneShotRead { value: params.value.0, remaining: params.count },
        ),
        params.mode@ == "mask"@ ==> asked_override(params) == Some(
            OverrideSpec::MaskedWriteIgnore { mask: params.value.0 },
        ),
        params.mode@ != "static"@ && params.mode@ != "oneshot"@ && params.mode@ != "mask"@
            ==> asked_override(params) is None,
{
    reveal_strlit("static");
    reveal_strlit("oneshot");
    reveal_strlit("mask");
    assert("static"@.len() == 6 && "oneshot"@.len() == 7 && "mask"@.len() == 4);
}

/// The widths a request can name, a word where it names none it knows.
pub proof fn law_widths_by_name(text: Seq<char>)
    ensures
        width_named("byte"@) == Width::Byte,
        width_named("half"@) == Width::Half,
        text != "byte"@ && text != "half"@ ==> width_named(text) == Width::Word,
        width_named(width_text(None)) == Width::Word,
        width_text(Some(text)) == crate::text::lowered(text),
{
    reveal_strlit("byte");
    reveal_strlit("half");
    reveal_strlit("word");
    assert("byte"@[0] == 'b' && "half"@[0] == 'h' && "word"@[0] == 'w');
}

/// Reading a register gives what the bank gives at that width, and zero where it
/// gives nothing.
pub proof fn law_wide_reads_ask_the_bank(bank: BankState, addr: u32)
    ensures
        bank.byte_result(addr) matches Ok(v) ==> wide_value(bank, Width::Byte, addr) == v,
        bank.half_result(addr) matches Ok(v) ==> wide_value(bank, Width::Half, addr) == v,
        bank.read_result(addr) matches Ok(v) ==> wide_value(bank, Width::Word, addr) == v,
        bank.byte_result(addr) is Err ==> wide_value(bank, Width::Byte, addr) == 0,
        bank.half_result(addr) is Err ==> wide_value(bank, Width::Half, addr) == 0,
        bank.read_result(addr) is Err ==> wide_value(bank, Width::Word, addr) == 0,
        after_wide_read(bank, Width::Byte, addr) == bank.after_byte_read(addr),
        after_wide_read(bank, Width::Half, addr) == bank.after_half_read(addr),
        after_wide_read(bank, Width::Word, addr) == bank.after_read(addr).drained(),
{
}

/// A narrow write takes the low bits of the value.
pub proof fn law_wide_writes_take_the_low_bits(bank: BankState, addr: u32, val: u32)
    ensures
        after_wide_write(bank, Width::Byte, addr, val) == bank.after_byte_write(
            addr,
            (val % 0x100) as u8,
        ),
        after_wide_write(bank, Width::Half, addr, val) == bank.after_half_write(
            addr,
            (val % 0x1_0000) as u16,
        ),
        after_wide_write(bank, Width::Word, addr, val) == bank.after_write(addr, val).drained(),
{
    crate::bits::lemma_fields(val);
}

/// The tail of a list is its end, no longer than asked for.
pub proof fn law_tail_is_the_end<T>(s: Seq<T>, n: int, i: int)
    requires
        0 <= n,
    ensures
        tail(s, n).len() <= n,
        tail(s, n).len() == n || tail(s, n) == s,
        0 <= i < tail(s, n).len() ==> tail(s, n)[i] == s[s.len() - tail(s, n).len() + i],
{
}

/// A request without filters is shown the first hundred accesses. With a limit
/// of its own it is shown so many, and every access shown is one it asks for:
/// of the address, from the first instruction on and up to the last.
pub proof fn law_history_is_cut_and_filtered(
    history: Seq<MmioHistoryEntry>,
    params: GetMmioHistoryParams,
    i: int,
)
    ensures
        ({
            let shown = asked_history(history, params);
            &&& params.limit is None ==> shown.len() <= 100
            &&& params.limit matches Some(n) ==> shown.len() <= n
            &&& 0 <= i < shown.len() ==> {
                &&& params.address matches Some(a) ==> shown[i].address == a.0
                &&& params.from_insn matches Some(from) ==> from <= shown[i].insn
                &&& params.to_insn matches Some(to) ==> shown[i].insn <= to
            }
        }),
{
    let from = match params.last {
        Some(n) => tail(history, n as int),
        None => history,
    };
    let kept = from.filter(wanted(params));
    from.filter_lemma(wanted(params));
    let shown = asked_history(history, params);
    if 0 <= i < shown.len() {
        assert(shown[i] == kept[i]);
        assert(wanted(params)(kept[i]));
    }
}

/// Every access that a request asks for is shown while there is room for all of
/// them.
pub proof fn law_history_leaves_nothing_out(
    history: Seq<MmioHistoryEntry>,
    params: GetMmioHistoryParams,
    i: int,
)
    requires
        0 <= i < history.len(),
        params.last is None,
        history.len() <= (match params.limit {
            Some(n) => n as int,
            None => 100int,
        }),
        params.address matches Some(a) ==> history[i].address == a.0,
        params.from_insn matches Some(from) ==> from <= history[i].insn,
        params.to_insn matches Some(to) ==> history[i].insn <= to,
    ensures
        asked_history(history, params).contains(history[i]),
{
    history.lemma_filter_len(wanted(params));
    history.filter_lemma(wanted(params));
    assert(wanted(params)(history[i]));
}

} // verus!
