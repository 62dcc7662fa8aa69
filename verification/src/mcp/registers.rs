//! The registers and the state of the processor, as a front end asks for them.

use vstd::prelude::*;

use crate::mcp::handler::{
    BreakpointsResult, CpuStateResult, FirmwareInfoResult, FlagsResult, HexValue,
    ReadRegistersParams, ReadRegistersResult,
};
use crate::number::read_number;
use crate::soc::bank::BootMode;
use crate::text::{append_decimal, lower, same_text, spells};

verus! {

/// The status word and its flags.
#[derive(Clone, Copy, Debug, PartialEq, Eq, Structural)]
pub struct Flags {
    pub z: bool,
    pub n: bool,
    pub c: bool,
    pub v: bool,
    pub e1: bool,
    pub e2: bool,
    pub u: bool,
    pub h: bool,
    pub l: bool,
    pub de: bool,
    pub status32: u32,
}

/// The auxiliary registers a front end asks for.
#[derive(Clone, Copy, Debug, PartialEq, Eq, Structural)]
pub struct AuxRegs {
    pub ienable: u32,
    pub ipending: u32,
    pub identity: u32,
}

/// The processor at one moment.
#[derive(Clone, Copy, Debug)]
pub struct CpuSnapshot {
    pub pc: u32,
    pub core_regs: [u32; 64],
    pub flags: Flags,
    pub aux: AuxRegs,
    pub halted: bool,
    pub sleeping: bool,
    pub paused: bool,
    pub instruction_count: u64,
}

/// The register a name in lower case stands for.
pub open spec fn lower_register(cpu: CpuSnapshot, n: Seq<char>) -> Option<u32> {
    if n == "pc"@ {
        Some(cpu.pc)
    } else if n == "status32"@ {
        Some(cpu.flags.status32)
    } else if n == "sp"@ {
        Some(cpu.core_regs@[28])
    } else if n == "fp"@ {
        Some(cpu.core_regs@[27])
    } else if n == "gp"@ {
        Some(cpu.core_regs@[26])
    } else if n == "blink"@ {
        Some(cpu.core_regs@[31])
    } else if n == "lp_count"@ || n == "lpcount"@ {
        Some(cpu.core_regs@[60])
    } else if n == "ilink1"@ {
        Some(cpu.core_regs@[29])
    } else if n == "ilink2"@ {
        Some(cpu.core_regs@[30])
    } else if n == "ienable"@ {
        Some(cpu.aux.ienable)
    } else if n == "ipending"@ {
        Some(cpu.aux.ipending)
    } else if n == "identity"@ {
        Some(cpu.aux.identity)
    } else if n.len() > 0 && n[0] == 'r' {
        match crate::number::number(n.skip(1), 10, 63) {
            Some(i) => Some(cpu.core_regs@[i as int]),
            None => None,
        }
    } else {
        None
    }
}

/// The register a name stands for, in upper or lower case.
pub open spec fn register(cpu: CpuSnapshot, name: Seq<char>) -> Option<u32> {
    lower_register(cpu, crate::text::lowered(name))
}

pub fn reg_by_name(cpu: &CpuSnapshot, name: &str) -> (r: Option<u32>)
    ensures
        r == register(*cpu, name@),
{
    let n = lower(name);
    if spells(&n, "pc") {
        return Some(cpu.pc);
    }
    if spells(&n, "status32") {
        return Some(cpu.flags.status32);
    }
    if spells(&n, "sp") {
        return Some(cpu.core_regs[28]);
    }
    if spells(&n, "fp") {
        return Some(cpu.core_regs[27]);
    }
    if spells(&n, "gp") {
        return Some(cpu.core_regs[26]);
    }
    if spells(&n, "blink") {
        return Some(cpu.core_regs[31]);
    }
    if spells(&n, "lp_count") || spells(&n, "lpcount") {
        return Some(cpu.core_regs[60]);
    }
    if spells(&n, "ilink1") {
        return Some(cpu.core_regs[29]);
    }
    if spells(&n, "ilink2") {
        return Some(cpu.core_regs[30]);
    }
    if spells(&n, "ienable") {
        return Some(cpu.aux.ienable);
    }
    if spells(&n, "ipending") {
        return Some(cpu.aux.ipending);
    }
    if spells(&n, "identity") {
        return Some(cpu.aux.identity);
    }
    if n.len() > 0 && n[0] == 'r' {
        match read_number(&n, 1, 10, 63) {
            Some(i) => Some(cpu.core_regs[i as usize]),
            None => None,
        }
    } else {
        None
    }
}

/// Named values, as values.
pub open spec fn shown(values: Seq<(String, HexValue)>) -> Seq<(Seq<char>, u32)> {
    Seq::new(values.len(), |i: int| (values[i].0@, values[i].1.0))
}

/// Whether a list of named values has a name.
pub open spec fn has_name(values: Seq<(Seq<char>, u32)>, name: Seq<char>) -> bool {
    exists|i: int| 0 <= i < values.len() && (#[trigger] values[i]).0 == name
}

/// The registers of a list of names. Names that stand for none are left out,
/// and a name that comes twice is there once.
pub open spec fn named_registers(cpu: CpuSnapshot, names: Seq<String>) -> Seq<(Seq<char>, u32)>
    decreases names.len(),
{
    if names.len() == 0 {
        Seq::empty()
    } else {
        let before = named_registers(cpu, names.drop_last());
        let name = names.last()@;
        match register(cpu, name) {
            Some(v) => if has_name(before, name) {
                before
            } else {
                before.push((name, v))
            },
            None => before,
        }
    }
}

/// The registers shown where nothing was asked for.
pub open spec fn usual_registers(cpu: CpuSnapshot) -> Seq<(Seq<char>, u32)> {
    Seq::new(32, |i: int| ("r"@ + crate::text::decimal(i as nat), cpu.core_regs@[i])) + seq![
        ("pc"@, cpu.pc),
        ("sp"@, cpu.core_regs@[28]),
        ("fp"@, cpu.core_regs@[27]),
        ("gp"@, cpu.core_regs@[26]),
        ("blink"@, cpu.core_regs@[31]),
        ("lp_count"@, cpu.core_regs@[60]),
        ("status32"@, cpu.flags.status32),
        ("ienable"@, cpu.aux.ienable),
        ("ipending"@, cpu.aux.ipending),
    ]
}

fn knows(values: &Vec<(String, HexValue)>, name: &str) -> (r: bool)
    ensures
        r == has_name(shown(values@), name@),
{
    for i in 0..values.len()
        invariant
            forall|k: int| 0 <= k < i ==> (#[trigger] shown(values@)[k]).0 != name@,
    {
        if same_text(values[i].0.as_str(), name) {
            assert(shown(values@)[i as int].0 == name@);
            return true;
        }
    }
    false
}

fn note(values: &mut Vec<(String, HexValue)>, name: String, value: u32)
    ensures
        shown(final(values)@) == shown(old(values)@).push((name@, value)),
{
    let ghost was = values@;
    values.push((name, HexValue(value)));
    assert(shown(values@) =~= shown(was).push((name@, value)));
}

fn read_named(cpu: &CpuSnapshot, names: &Vec<String>) -> (r: Vec<(String, HexValue)>)
    ensures
        shown(r@) == named_registers(*cpu, names@),
{
    let mut out: Vec<(String, HexValue)> = Vec::new();
    assert(names@.take(0) =~= Seq::<String>::empty());
    assert(shown(out@) =~= named_registers(*cpu, names@.take(0)));
    for i in 0..names.len()
        invariant
            shown(out@) == named_registers(*cpu, names@.take(i as int)),
    {
        proof {
            assert(names@.take(i + 1).drop_last() =~= names@.take(i as int));
            assert(names@.take(i + 1).last() == names@[i as int]);
        }
        if let Some(v) = reg_by_name(cpu, names[i].as_str()) {
            if !knows(&out, names[i].as_str()) {
                note(&mut out, names[i].clone(), v);
            }
        }
    }
    assert(names@.take(names@.len() as int) =~= names@);
    out
}

fn read_usual(cpu: &CpuSnapshot) -> (r: Vec<(String, HexValue)>)
    ensures
        shown(r@) == usual_registers(*cpu),
{
    let mut out: Vec<(String, HexValue)> = Vec::new();
    assert(shown(out@) =~= usual_registers(*cpu).take(0));
    for i in 0..32usize
        invariant
            shown(out@) == usual_registers(*cpu).take(i as int),
    {
        let mut name = String::from_str("r");
        append_decimal(&mut name, i as u64);
        note(&mut out, name, cpu.core_regs[i]);
        assert(shown(out@) =~= usual_registers(*cpu).take(i + 1));
    }
    note(&mut out, String::from_str("pc"), cpu.pc);
    note(&mut out, String::from_str("sp"), cpu.core_regs[28]);
    note(&mut out, String::from_str("fp"), cpu.core_regs[27]);
    note(&mut out, String::from_str("gp"), cpu.core_regs[26]);
    note(&mut out, String::from_str("blink"), cpu.core_regs[31]);
    note(&mut out, String::from_str("lp_count"), cpu.core_regs[60]);
    note(&mut out, String::from_str("status32"), cpu.flags.status32);
    note(&mut out, String::from_str("ienable"), cpu.aux.ienable);
    note(&mut out, String::from_str("ipending"), cpu.aux.ipending);
    assert(shown(out@) =~= usual_registers(*cpu));
    out
}

/// Read the registers a request names, or the usual ones.
pub fn read_registers(cpu: &CpuSnapshot, params: &ReadRegistersParams) -> (r: ReadRegistersResult)
    ensures
        shown(r.values@) == (match params.names {
            Some(names) => named_registers(*cpu, names@),
            None => usual_registers(*cpu),
        }),
{
    match &params.names {
        Some(names) => ReadRegistersResult { values: read_named(cpu, names) },
        None => ReadRegistersResult { values: read_usual(cpu) },
    }
}

/// The flags of the status word.
pub fn read_flags(cpu: &CpuSnapshot) -> (r: FlagsResult)
    ensures
        r.z == cpu.flags.z,
        r.n == cpu.flags.n,
        r.c == cpu.flags.c,
        r.v == cpu.flags.v,
        r.e1 == cpu.flags.e1,
        r.e2 == cpu.flags.e2,
        r.u == cpu.flags.u,
        r.h == cpu.flags.h,
        r.l == cpu.flags.l,
        r.de == cpu.flags.de,
        r.status32.0 == cpu.flags.status32,
{
    let f = cpu.flags;
    FlagsResult {
        z: f.z,
        n: f.n,
        c: f.c,
        v: f.v,
        e1: f.e1,
        e2: f.e2,
        u: f.u,
        h: f.h,
        l: f.l,
        de: f.de,
        status32: HexValue(f.status32),
    }
}

/// The headline state of the processor. The names of its run state and of the
/// reason it pauses are the front end's.
pub fn get_cpu_state(cpu: &CpuSnapshot, run_state: &str, pause_reason: &str) -> (r: CpuStateResult)
    ensures
        r.pc.0 == cpu.pc,
        r.halted == cpu.halted,
        r.sleeping == cpu.sleeping,
        r.paused == cpu.paused,
        r.instruction_count == cpu.instruction_count,
        r.run_state@ == run_state@,
        r.pause_reason@ == pause_reason@,
{
    CpuStateResult {
        pc: HexValue(cpu.pc),
        halted: cpu.halted,
        sleeping: cpu.sleeping,
        paused: cpu.paused,
        instruction_count: cpu.instruction_count,
        run_state: run_state.to_owned(),
        pause_reason: pause_reason.to_owned(),
    }
}

/// Words, as values.
pub open spec fn words_of(values: Seq<HexValue>) -> Seq<u32> {
    Seq::new(values.len(), |i: int| values[i].0)
}

/// Words as a front end shows them.
pub fn hex_words(words: &Vec<u32>) -> (r: Vec<HexValue>)
    ensures
        words_of(r@) == words@,
{
    let mut out: Vec<HexValue> = Vec::new();
    for i in 0..words.len()
        invariant
            words_of(out@) == words@.take(i as int),
    {
        let ghost before = words_of(out@);
        out.push(HexValue(words[i]));
        assert(words_of(out@) =~= before.push(words@[i as int]));
        assert(words@.take(i + 1) =~= before.push(words@[i as int]));
    }
    assert(words_of(out@) =~= words@);
    out
}

/// The breakpoints that are set.
pub fn list_breakpoints(breakpoints: &Vec<u32>) -> (r: BreakpointsResult)
    ensures
        words_of(r.breakpoints@) == breakpoints@,
{
    BreakpointsResult { breakpoints: hex_words(breakpoints) }
}

/// What is known of the firmware that was loaded.
#[derive(Clone, Debug)]
pub struct FirmwareInfo {
    pub path: String,
    pub boot_mode: BootMode,
    pub entry_point: u32,
    pub flash_size: usize,
    pub flash_loaded: bool,
}

/// The name of a boot mode.
pub open spec fn boot_mode_text(mode: BootMode) -> Seq<char> {
    match mode {
        BootMode::Cold => "Cold"@,
        BootMode::Warm => "Warm"@,
    }
}

fn boot_mode_name(mode: BootMode) -> (r: String)
    ensures
        r@ == boot_mode_text(mode),
{
    match mode {
        BootMode::Cold => String::from_str("Cold"),
        BootMode::Warm => String::from_str("Warm"),
    }
}

/// Describe the firmware, or say that there is none.
pub fn get_firmware_info(info: &Option<FirmwareInfo>) -> (r: FirmwareInfoResult)
    ensures
        r.loaded == info is Some,
        match info {
            None => {
                &&& r.path is None
                &&& r.boot_mode is None
                &&& r.entry_point is None
                &&& r.flash_size is None
                &&& r.flash_loaded is None
            },
            Some(i) => {
                &&& crate::text::opt_text(r.path) == Some(i.path@)
                &&& crate::text::opt_text(r.boot_mode) == Some(boot_mode_text(i.boot_mode))
                &&& r.entry_point == Some(HexValue(i.entry_point))
                &&& r.flash_size == Some(i.flash_size)
                &&& r.flash_loaded == Some(i.flash_loaded)
            },
        },
{
    match info {
        None => FirmwareInfoResult::default(),
        Some(i) => FirmwareInfoResult {
            loaded: true,
            path: Some(i.path.clone()),
            boot_mode: Some(boot_mode_name(i.boot_mode)),
            entry_point: Some(HexValue(i.entry_point)),
            flash_size: Some(i.flash_size),
            flash_loaded: Some(i.flash_loaded),
        },
    }
}

/// A core register goes by the letter r and its number, up to the sixty-fourth;
/// letters count in either case.
pub proof fn law_core_registers_go_by_their_number(cpu: CpuSnapshot, i: nat)
    ensures
        i < 64 ==> register(cpu, seq!['r'] + crate::text::decimal(i)) == Some(
            cpu.core_regs@[i as int],
        ),
        i >= 64 ==> register(cpu, seq!['r'] + crate::text::decimal(i)) is None,
        forall|name: Seq<char>| #[trigger]
            register(cpu, name) == register(cpu, crate::text::lowered(name)),
{
    lemma_names_begin_otherwise();
    let digits = crate::text::decimal(i);
    let name = seq!['r'] + digits;
    assert(crate::text::lowered(name) =~= name) by {
        assert forall|k: int| 0 <= k < name.len() implies crate::text::lower_char(name[k])
            == name[k] by {
            if k > 0 {
                lemma_decimal_has_no_letters(i, k - 1);
            }
        }
    }
    assert(name.skip(1) =~= digits);
    crate::number::law_decimal_reads_back(i, 63);
    assert forall|other: Seq<char>| #[trigger]
        register(cpu, other) == register(cpu, crate::text::lowered(other)) by {
        assert(crate::text::lowered(crate::text::lowered(other)) =~= crate::text::lowered(other));
    }
}

proof fn lemma_decimal_has_no_letters(n: nat, i: int)
    requires
        0 <= i < crate::text::decimal(n).len(),
    ensures
        '0' <= crate::text::decimal(n)[i] <= '9',
    decreases n,
{
    if n >= 10 && i < crate::text::decimal(n).len() - 1 {
        lemma_decimal_has_no_letters(n / 10, i);
    }
}

proof fn lemma_names_begin_otherwise()
    ensures
        "pc"@[0] != 'r' && "status32"@[0] != 'r' && "sp"@[0] != 'r' && "fp"@[0] != 'r' && "gp"@[0]
            != 'r' && "blink"@[0] != 'r' && "lp_count"@[0] != 'r' && "lpcount"@[0] != 'r'
            && "ilink1"@[0] != 'r' && "ilink2"@[0] != 'r' && "ienable"@[0] != 'r' && "ipending"@[0]
            != 'r' && "identity"@[0] != 'r',
{
    reveal_strlit("pc");
    reveal_strlit("status32");
    reveal_strlit("sp");
    reveal_strlit("fp");
    reveal_strlit("gp");
    reveal_strlit("blink");
    reveal_strlit("lp_count");
    reveal_strlit("lpcount");
    reveal_strlit("ilink1");
    reveal_strlit("ilink2");
    reveal_strlit("ienable");
    reveal_strlit("ipending");
    reveal_strlit("identity");
}

/// The registers with names of their own: the pointers, the links, the loop
/// count, the status and what the interrupt unit shows.
pub proof fn law_named_registers_are_the_usual_ones(cpu: CpuSnapshot)
    ensures
        lower_register(cpu, "pc"@) == Some(cpu.pc),
        lower_register(cpu, "status32"@) == Some(cpu.flags.status32),
        lower_register(cpu, "sp"@) == Some(cpu.core_regs@[28]),
        lower_register(cpu, "fp"@) == Some(cpu.core_regs@[27]),
        lower_register(cpu, "gp"@) == Some(cpu.core_regs@[26]),
        lower_register(cpu, "blink"@) == Some(cpu.core_regs@[31]),
        lower_register(cpu, "lp_count"@) == Some(cpu.core_regs@[60]),
        lower_register(cpu, "lpcount"@) == Some(cpu.core_regs@[60]),
        lower_register(cpu, "ilink1"@) == Some(cpu.core_regs@[29]),
        lower_register(cpu, "ilink2"@) == Some(cpu.core_regs@[30]),
        lower_register(cpu, "ienable"@) == Some(cpu.aux.ienable),
        lower_register(cpu, "ipending"@) == Some(cpu.aux.ipending),
        lower_register(cpu, "identity"@) == Some(cpu.aux.identity),
{
    reveal_strlit("pc");
    reveal_strlit("status32");
    reveal_strlit("sp");
    reveal_strlit("fp");
    reveal_strlit("gp");
    reveal_strlit("blink");
    reveal_strlit("lp_count");
    reveal_strlit("lpcount");
    reveal_strlit("ilink1");
    reveal_strlit("ilink2");
    reveal_strlit("ienable");
    reveal_strlit("ipending");
    reveal_strlit("identity");
    assert("pc"@.len() == 2 && "sp"@.len() == 2 && "fp"@.len() == 2 && "gp"@.len() == 2);
    assert("status32"@.len() == 8 && "lp_count"@.len() == 8 && "ipending"@.len() == 8
        && "identity"@.len() == 8);
    assert("lpcount"@.len() == 7 && "ienable"@.len() == 7);
    assert("ilink1"@.len() == 6 && "ilink2"@.len() == 6 && "blink"@.len() == 5);
    assert("pc"@[0] == 'p' && "sp"@[0] == 's' && "fp"@[0] == 'f' && "gp"@[0] == 'g');
    assert("status32"@[0] == 's' && "lp_count"@[0] == 'l' && "ipending"@[1] == 'p'
        && "identity"@[1] == 'd' && "identity"@[0] == 'i' && "ipending"@[0] == 'i');
    assert("lpcount"@[0] == 'l' && "ienable"@[0] == 'i');
    assert("ilink1"@[5] == '1' && "ilink2"@[5] == '2');
}

/// What is shown where nothing was asked for is what asking for each would show:
/// the first thirty-two core registers in order, then the named ones.
pub proof fn law_usual_registers_are_in_order(cpu: CpuSnapshot, i: int)
    requires
        0 <= i < 32,
    ensures
        usual_registers(cpu).len() == 41,
        usual_registers(cpu)[i] == ("r"@ + crate::text::decimal(i as nat), cpu.core_regs@[i]),
        usual_registers(cpu)[32] == ("pc"@, cpu.pc),
        usual_registers(cpu)[33] == ("sp"@, cpu.core_regs@[28]),
        usual_registers(cpu)[34] == ("fp"@, cpu.core_regs@[27]),
        usual_registers(cpu)[35] == ("gp"@, cpu.core_regs@[26]),
        usual_registers(cpu)[36] == ("blink"@, cpu.core_regs@[31]),
        usual_registers(cpu)[37] == ("lp_count"@, cpu.core_regs@[60]),
        usual_registers(cpu)[38] == ("status32"@, cpu.flags.status32),
        usual_registers(cpu)[39] == ("ienable"@, cpu.aux.ienable),
        usual_registers(cpu)[40] == ("ipending"@, cpu.aux.ipending),
{
}

/// Registers asked for by name come in the order of the names, each name once;
/// names that stand for none are left out.
pub proof fn law_named_registers_come_once(cpu: CpuSnapshot, names: Seq<String>, k: int, m: int)
    ensures
        0 <= k < named_registers(cpu, names).len() ==> register(
            cpu,
            named_registers(cpu, names)[k].0,
        ) == Some(named_registers(cpu, names)[k].1),
        0 <= k < m < named_registers(cpu, names).len() ==> named_registers(cpu, names)[k].0
            != named_registers(cpu, names)[m].0,
        0 <= k < names.len() && register(cpu, names[k]@) is Some ==> has_name(
            named_registers(cpu, names),
            names[k]@,
        ),
    decreases names.len(),
{
    if names.len() > 0 {
        let front = names.drop_last();
        law_named_registers_come_once(cpu, front, k, m);
        let before = named_registers(cpu, front);
        let after = named_registers(cpu, names);
        assert(names.last() == names[names.len() - 1]);
        if 0 <= k < front.len() {
            assert(front[k] == names[k]);
            if has_name(before, names[k]@) {
                let j = choose|j: int| 0 <= j < before.len() && (#[trigger] before[j]).0
                    == names[k]@;
                assert(after[j].0 == names[k]@);
            }
        }
        if k == names.len() - 1 && register(cpu, names[k]@) is Some && !has_name(
            before,
            names[k]@,
        ) {
            assert(after[before.len() as int].0 == names[k]@);
        }
    }
}

} // verus!
