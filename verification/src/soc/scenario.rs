//! Outside stimulus on the bus: overrides that answer for a register, scheduled
//! events, watchpoints, and what they set off: writes that are queued, and the
//! pause they may ask for.

use std::collections::HashMap;

use vstd::prelude::*;

verus! {

broadcast use vstd::std_specs::hash::group_hash_axioms;

/// How an override answers for its address.
#[derive(Clone, Copy, Debug, PartialEq, Eq, Structural)]
pub enum OverrideSpec {
    /// Every read gives the value.
    StaticRead { value: u32 },
    /// The next reads give the value, as many as remain.
    OneShotRead { value: u32, remaining: u32 },
    /// Writes lose the bits of the mask.
    MaskedWriteIgnore { mask: u32 },
}

impl OverrideSpec {
    /// What a read of the address gives, if the override answers it.
    pub open spec fn answer(self) -> Option<u32> {
        match self {
            OverrideSpec::StaticRead { value } => Some(value),
            OverrideSpec::OneShotRead { value, remaining } => if remaining > 0 {
                Some(value)
            } else {
                None
            },
            OverrideSpec::MaskedWriteIgnore { mask } => None,
        }
    }
}

/// The overrides and their labels by address, as values.
#[verifier::ext_equal]
pub struct OverrideState {
    pub specs: Map<u32, OverrideSpec>,
    pub labels: Map<u32, String>,
}

/// The labels once a key has a label, or none.
pub open spec fn labelled(m: Map<u32, String>, key: u32, label: Option<String>) -> Map<
    u32,
    String,
> {
    match label {
        Some(text) => m.insert(key, text),
        None => m.remove(key),
    }
}

impl OverrideState {
    pub open spec fn nothing() -> OverrideState {
        OverrideState { specs: Map::empty(), labels: Map::empty() }
    }

    /// The overrides with one put at an address.
    pub open spec fn with(self, addr: u32, spec: OverrideSpec, label: Option<String>) -> OverrideState {
        OverrideState {
            specs: self.specs.insert(addr, spec),
            labels: labelled(self.labels, addr, label),
        }
    }

    /// The overrides with none at an address.
    pub open spec fn without(self, addr: u32) -> OverrideState {
        OverrideState { specs: self.specs.remove(addr), labels: self.labels.remove(addr) }
    }
}

/// What the overrides answer to a read.
pub open spec fn override_answer(m: OverrideState, addr: u32) -> Option<u32> {
    if m.specs.dom().contains(addr) {
        m.specs[addr].answer()
    } else {
        None
    }
}

/// The overrides after a read: a one-shot counts down and expires with its
/// last read.
pub open spec fn overrides_after_read(m: OverrideState, addr: u32) -> OverrideState {
    if m.specs.dom().contains(addr) {
        match m.specs[addr] {
            OverrideSpec::OneShotRead { value, remaining } => if remaining > 1 {
                OverrideState {
                    specs: m.specs.insert(
                        addr,
                        OverrideSpec::OneShotRead { value, remaining: (remaining - 1) as u32 },
                    ),
                    ..m
                }
            } else {
                m.without(addr)
            },
            _ => m,
        }
    } else {
        m
    }
}

/// What an override leaves of a written value, if it masks writes there.
pub open spec fn masked_write(m: OverrideState, addr: u32, val: u32) -> Option<u32> {
    if m.specs.dom().contains(addr) {
        match m.specs[addr] {
            OverrideSpec::MaskedWriteIgnore { mask } => Some(val & !mask),
            _ => None,
        }
    } else {
        None
    }
}

#[derive(Debug)]
pub struct OverrideTable {
    pub specs: HashMap<u32, OverrideSpec>,
    pub labels: HashMap<u32, String>,
}

impl View for OverrideTable {
    type V = OverrideState;

    open spec fn view(&self) -> OverrideState {
        OverrideState { specs: self.specs@, labels: self.labels@ }
    }
}

impl Clone for OverrideTable {
    fn clone(&self) -> (r: Self)
        ensures
            r@ == self@,
    {
        let r = OverrideTable {
            specs: self.specs.clone(),
            labels: self.labels.clone(),
        };
        assert(r@ =~= self@);
        r
    }
}

impl OverrideTable {
    pub fn new() -> (r: Self)
        ensures
            r@ == OverrideState::nothing(),
    {
        OverrideTable { specs: HashMap::new(), labels: HashMap::new() }
    }

    pub fn set(&mut self, addr: u32, spec: OverrideSpec, label: Option<String>)
        ensures
            final(self)@ == old(self)@.with(addr, spec, label),
    {
        self.specs.insert(addr, spec);
        match label {
            Some(text) => {
                self.labels.insert(addr, text);
            },
            None => {
                self.labels.remove(&addr);
            },
        }
    }

    pub fn remove(&mut self, addr: u32) -> (r: bool)
        ensures
            r == old(self)@.specs.dom().contains(addr),
            final(self)@ == old(self)@.without(addr),
    {
        self.labels.remove(&addr);
        let had: bool = self.specs.contains_key(&addr);
        self.specs.remove(&addr);
        had
    }

    pub fn clear(&mut self)
        ensures
            final(self)@ == OverrideState::nothing(),
    {
        self.specs = HashMap::new();
        self.labels = HashMap::new();
    }

    /// What a read would give, without taking part in it.
    pub fn peek_read(&self, addr: u32) -> (r: Option<u32>)
        ensures
            r == override_answer(self@, addr),
    {
        match self.specs.get(&addr) {
            None => None,
            Some(spec) => {
                match *spec {
                    OverrideSpec::StaticRead { value } => Some(value),
                    OverrideSpec::OneShotRead { value, remaining } => {
                        if remaining > 0 {
                            Some(value)
                        } else {
                            None
                        }
                    },
                    OverrideSpec::MaskedWriteIgnore { mask: _ } => None,
                }
            },
        }
    }

    /// Answer a read, counting a one-shot down.
    pub fn try_read(&mut self, addr: u32) -> (r: Option<u32>)
        ensures
            r == override_answer(old(self)@, addr),
            final(self)@ == overrides_after_read(old(self)@, addr),
    {
        let answer = self.peek_read(addr);
        let spec: Option<OverrideSpec> = match self.specs.get(&addr) {
            Some(s) => Some(*s),
            None => None,
        };
        if let Some(OverrideSpec::OneShotRead { value, remaining }) = spec {
            if remaining > 1 {
                self.specs.insert(
                    addr,
                    OverrideSpec::OneShotRead { value, remaining: remaining - 1 },
                );
            } else {
                self.specs.remove(&addr);
                self.labels.remove(&addr);
            }
        }
        answer
    }

    /// What is left of a write, if a mask takes part in it.
    pub fn filter_write(&self, addr: u32, val: u32) -> (r: Option<u32>)
        ensures
            r == masked_write(self@, addr, val),
    {
        match self.specs.get(&addr) {
            None => None,
            Some(spec) => {
                match *spec {
                    OverrideSpec::MaskedWriteIgnore { mask } => Some(val & !mask),
                    _ => None,
                }
            },
        }
    }
}

/// A write a scheduled effect asks for.
#[derive(Clone, Copy, Debug, PartialEq, Eq, Structural)]
pub struct DeferredWrite {
    pub address: u32,
    pub value: u32,
}

/// What sets a scheduled event off.
#[derive(Clone, Copy, Debug, PartialEq, Eq, Structural)]
pub enum Trigger {
    /// So many instructions have run.
    AtInstruction { n: u64 },
    /// An address is read for the so-many-th time.
    OnMmioRead { address: u32, occurrence: u32 },
    /// An address is written for the so-many-th time.
    OnMmioWrite { address: u32, occurrence: u32 },
}

/// What an event or a watchpoint does.
#[derive(Clone, Copy, Debug, PartialEq, Eq, Structural)]
pub enum Effect {
    SetOverride { address: u32, spec: OverrideSpec },
    RemoveOverride { address: u32 },
    WriteMmio { address: u32, value: u32 },
    Pause,
}

#[derive(Clone, Copy, Debug, PartialEq, Eq, Structural)]
pub struct ScheduledEvent {
    pub id: u32,
    pub trigger: Trigger,
    pub effect: Effect,
    /// Whether it is armed again after it fired.
    pub repeat: bool,
    pub fired: bool,
    /// What was counted since it was armed: accesses, or the instructions that
    /// had run.
    pub seen: u64,
}

impl ScheduledEvent {
    pub open spec fn armed(self) -> bool {
        !self.fired || self.repeat
    }

    /// How many accesses it waits for, where an access is one it counts.
    pub open spec fn awaits(self, is_write: bool, addr: u32) -> Option<u32> {
        match self.trigger {
            Trigger::OnMmioRead { address, occurrence } => if !is_write && address == addr
                && self.armed() {
                Some(occurrence)
            } else {
                None
            },
            Trigger::OnMmioWrite { address, occurrence } => if is_write && address == addr
                && self.armed() {
                Some(occurrence)
            } else {
                None
            },
            Trigger::AtInstruction { .. } => None,
        }
    }

    /// Whether an access is the one it waits for.
    pub open spec fn fires_on(self, is_write: bool, addr: u32) -> bool {
        self.awaits(is_write, addr) matches Some(n) && self.seen + 1 >= n
    }

    pub open spec fn after_access(self, is_write: bool, addr: u32) -> ScheduledEvent {
        if self.fires_on(is_write, addr) {
            ScheduledEvent { fired: true, seen: 0, ..self }
        } else if self.awaits(is_write, addr) is Some {
            ScheduledEvent { seen: (self.seen + 1) as u64, ..self }
        } else {
            self
        }
    }

    /// Whether so many instructions are what it waits for.
    pub open spec fn fires_at(self, insns: u64) -> bool {
        &&& self.armed()
        &&& self.trigger matches Trigger::AtInstruction { n } && insns - self.seen >= n
    }

    pub open spec fn after_instructions(self, insns: u64) -> ScheduledEvent {
        if self.fires_at(insns) {
            ScheduledEvent { fired: true, seen: insns, ..self }
        } else {
            self
        }
    }

    fn note_access(&self, is_write: bool, addr: u32) -> (r: (ScheduledEvent, bool))
        ensures
            r.0 == self.after_access(is_write, addr),
            r.1 == self.fires_on(is_write, addr),
    {
        let awaited: Option<u32> = match self.trigger {
            Trigger::OnMmioRead { address, occurrence } => {
                if !is_write && address == addr {
                    Some(occurrence)
                } else {
                    None
                }
            },
            Trigger::OnMmioWrite { address, occurrence } => {
                if is_write && address == addr {
                    Some(occurrence)
                } else {
                    None
                }
            },
            Trigger::AtInstruction { n: _ } => None,
        };
        if self.fired && !self.repeat {
            return (*self, false);
        }
        match awaited {
            None => (*self, false),
            Some(n) => {
                if n <= 1 || self.seen >= (n - 1) as u64 {
                    (ScheduledEvent { fired: true, seen: 0, ..*self }, true)
                } else {
                    (ScheduledEvent { seen: self.seen + 1, ..*self }, false)
                }
            },
        }
    }

    fn note_instructions(&self, insns: u64) -> (r: (ScheduledEvent, bool))
        ensures
            r.0 == self.after_instructions(insns),
            r.1 == self.fires_at(insns),
    {
        let due: bool = match self.trigger {
            Trigger::AtInstruction { n } => {
                (!self.fired || self.repeat) && (if insns >= self.seen {
                    insns - self.seen >= n
                } else {
                    false
                })
            },
            _ => false,
        };
        if due {
            (ScheduledEvent { fired: true, seen: insns, ..*self }, true)
        } else {
            (*self, false)
        }
    }
}

/// The accesses a watchpoint of the bus looks at.
#[derive(Clone, Copy, Debug, PartialEq, Eq, Structural)]
pub enum MmioWatchMode {
    Read,
    Write,
    ReadWrite,
}

/// What a watchpoint of the bus does.
#[derive(Clone, Copy, Debug, PartialEq, Eq, Structural)]
pub enum MmioWatchAction {
    Pause,
    Fire(Effect),
}

impl MmioWatchAction {
    pub open spec fn as_effect(self) -> Effect {
        match self {
            MmioWatchAction::Pause => Effect::Pause,
            MmioWatchAction::Fire(effect) => effect,
        }
    }

    fn effect(self) -> (r: Effect)
        ensures
            r == self.as_effect(),
    {
        match self {
            MmioWatchAction::Pause => Effect::Pause,
            MmioWatchAction::Fire(effect) => effect,
        }
    }
}

/// What the value of an access must be for a watchpoint to see it.
#[derive(Clone, Copy, Debug, PartialEq, Eq, Structural)]
pub enum ValueCondition {
    /// The bits of the mask are as expected.
    MaskEqual { mask: u32, expect: u32 },
}

#[derive(Clone, Copy, Debug, PartialEq, Eq, Structural)]
pub struct MmioWatchpoint {
    pub id: u32,
    pub address: u32,
    pub size: u32,
    pub mode: MmioWatchMode,
    pub action: MmioWatchAction,
    pub condition: Option<ValueCondition>,
}

impl MmioWatchpoint {
    /// Whether it sees an access.
    pub open spec fn sees(self, is_write: bool, addr: u32, val: u32) -> bool {
        &&& self.address <= addr < self.address + self.size
        &&& match self.mode {
            MmioWatchMode::Read => !is_write,
            MmioWatchMode::Write => is_write,
            MmioWatchMode::ReadWrite => true,
        }
        &&& match self.condition {
            Some(ValueCondition::MaskEqual { mask, expect }) => val & mask == expect,
            None => true,
        }
    }

    fn matches(&self, is_write: bool, addr: u32, val: u32) -> (r: bool)
        ensures
            r == self.sees(is_write, addr, val),
    {
        let inside: bool = addr >= self.address && addr - self.address < self.size;
        let direction: bool = match self.mode {
            MmioWatchMode::Read => !is_write,
            MmioWatchMode::Write => is_write,
            MmioWatchMode::ReadWrite => true,
        };
        let value: bool = match self.condition {
            Some(ValueCondition::MaskEqual { mask, expect }) => val & mask == expect,
            None => true,
        };
        inside && direction && value
    }
}

/// The stimulus, as values.
#[verifier::ext_equal]
pub struct ScenarioState {
    pub overrides: OverrideState,
    pub deferred: Seq<DeferredWrite>,
    pub pause: bool,
    pub cal_converged: bool,
    pub events: Seq<ScheduledEvent>,
    pub watchpoints: Seq<MmioWatchpoint>,
    pub insns: u64,
    pub next_id: u32,
    /// What events and watchpoints are called, by their number.
    pub labels: Map<u32, String>,
}

impl ScenarioState {
    /// Nothing set up.
    pub open spec fn nothing() -> ScenarioState {
        ScenarioState {
            overrides: OverrideState::nothing(),
            deferred: Seq::empty(),
            pause: false,
            cal_converged: false,
            events: Seq::empty(),
            watchpoints: Seq::empty(),
            insns: 0,
            next_id: 1,
            labels: Map::empty(),
        }
    }

    /// The stimulus once an effect is carried out. A write waits until the
    /// access that set it off is over.
    pub open spec fn applied(self, effect: Effect) -> ScenarioState {
        match effect {
            Effect::SetOverride { address, spec } => ScenarioState {
                overrides: self.overrides.with(address, spec, None),
                ..self
            },
            Effect::RemoveOverride { address } => ScenarioState {
                overrides: self.overrides.without(address),
                ..self
            },
            Effect::WriteMmio { address, value } => ScenarioState {
                deferred: self.deferred.push(DeferredWrite { address, value }),
                ..self
            },
            Effect::Pause => ScenarioState { pause: true, ..self },
        }
    }

    /// The stimulus once an effect is carried out, or not.
    pub open spec fn applied_if(self, fires: bool, effect: Effect) -> ScenarioState {
        if fires {
            self.applied(effect)
        } else {
            self
        }
    }

    /// The first `n` events have counted an access, each in its turn.
    pub open spec fn events_noted(self, is_write: bool, addr: u32, n: nat) -> ScenarioState
        decreases n,
    {
        if n == 0 {
            self
        } else {
            let before = self.events_noted(is_write, addr, (n - 1) as nat);
            let e = self.events[n - 1];
            ScenarioState {
                events: before.events.update(n - 1, e.after_access(is_write, addr)),
                ..before
            }.applied_if(e.fires_on(is_write, addr), e.effect)
        }
    }

    /// The first `n` watchpoints have looked at an access.
    pub open spec fn watched(self, is_write: bool, addr: u32, val: u32, n: nat) -> ScenarioState
        decreases n,
    {
        if n == 0 {
            self
        } else {
            let w = self.watchpoints[n - 1];
            self.watched(is_write, addr, val, (n - 1) as nat).applied_if(
                w.sees(is_write, addr, val),
                w.action.as_effect(),
            )
        }
    }

    /// The stimulus after an access: the events count it, then the watchpoints
    /// look at it.
    #[verifier::opaque]
    pub open spec fn after_access(self, is_write: bool, addr: u32, val: u32) -> ScenarioState {
        self.events_noted(is_write, addr, self.events.len()).watched(
            is_write,
            addr,
            val,
            self.watchpoints.len(),
        )
    }

    /// The first `n` events have looked at how many instructions have run.
    pub open spec fn events_timed(self, insns: u64, n: nat) -> ScenarioState
        decreases n,
    {
        if n == 0 {
            self
        } else {
            let before = self.events_timed(insns, (n - 1) as nat);
            let e = self.events[n - 1];
            ScenarioState {
                events: before.events.update(n - 1, e.after_instructions(insns)),
                ..before
            }.applied_if(e.fires_at(insns), e.effect)
        }
    }

    /// The instructions that have run after some more.
    pub open spec fn insns_after(self, cpu_instructions: u64) -> u64 {
        if self.insns + cpu_instructions > u64::MAX {
            u64::MAX
        } else {
            (self.insns + cpu_instructions) as u64
        }
    }

    /// The stimulus after a tick.
    #[verifier::opaque]
    pub open spec fn after_tick(self, cpu_instructions: u64) -> ScenarioState {
        let insns = self.insns_after(cpu_instructions);
        ScenarioState { insns, ..self }.events_timed(insns, self.events.len())
    }
}

#[derive(Debug)]
pub struct ScenarioEngine {
    pub overrides: OverrideTable,
    pub deferred: Vec<DeferredWrite>,
    pub pause_requested: bool,
    /// Whether the analog calibration is taken as converged.
    pub serdes_cal_converged: bool,
    pub events: Vec<ScheduledEvent>,
    pub watchpoints: Vec<MmioWatchpoint>,
    /// Instructions that have run.
    pub insns: u64,
    pub next_id: u32,
    /// What events and watchpoints are called, by their number.
    pub labels: HashMap<u32, String>,
}

impl View for ScenarioEngine {
    type V = ScenarioState;

    open spec fn view(&self) -> ScenarioState {
        ScenarioState {
            overrides: self.overrides@,
            deferred: self.deferred@,
            pause: self.pause_requested,
            cal_converged: self.serdes_cal_converged,
            events: self.events@,
            watchpoints: self.watchpoints@,
            insns: self.insns,
            next_id: self.next_id,
            labels: self.labels@,
        }
    }
}

impl Clone for ScenarioEngine {
    fn clone(&self) -> (r: Self)
        ensures
            r@ == self@,
    {
        let r = ScenarioEngine {
            overrides: self.overrides.clone(),
            deferred: self.deferred.clone(),
            pause_requested: self.pause_requested,
            serdes_cal_converged: self.serdes_cal_converged,
            events: vstd::slice::slice_to_vec(self.events.as_slice()),
            watchpoints: vstd::slice::slice_to_vec(self.watchpoints.as_slice()),
            insns: self.insns,
            next_id: self.next_id,
            labels: self.labels.clone(),
        };
        assert(r.deferred@ =~= self.deferred@);
        assert(r.events@ =~= self.events@);
        assert(r.watchpoints@ =~= self.watchpoints@);
        assert(r@ =~= self@);
        r
    }
}

impl ScenarioEngine {
    pub fn new() -> (r: Self)
        ensures
            r@ == ScenarioState::nothing(),
    {
        ScenarioEngine {
            overrides: OverrideTable::new(),
            deferred: Vec::new(),
            pause_requested: false,
            serdes_cal_converged: false,
            events: Vec::new(),
            watchpoints: Vec::new(),
            insns: 0,
            next_id: 1,
            labels: HashMap::new(),
        }
    }

    /// Take the queued writes, oldest first.
    pub fn take_deferred_writes(&mut self) -> (r: Vec<DeferredWrite>)
        ensures
            r@ == old(self)@.deferred,
            final(self)@ == (ScenarioState { deferred: Seq::empty(), ..old(self)@ }),
    {
        let mut taken: Vec<DeferredWrite> = Vec::new();
        std::mem::swap(&mut taken, &mut self.deferred);
        taken
    }

    /// Whether a pause was asked for since the last time.
    pub fn take_pause(&mut self) -> (r: bool)
        ensures
            r == old(self)@.pause,
            final(self)@ == (ScenarioState { pause: false, ..old(self)@ }),
    {
        let asked: bool = self.pause_requested;
        self.pause_requested = false;
        asked
    }

    fn set_label(&mut self, id: u32, label: Option<String>)
        ensures
            final(self)@ == (ScenarioState {
                labels: labelled(old(self)@.labels, id, label),
                ..old(self)@
            }),
    {
        match label {
            Some(text) => {
                self.labels.insert(id, text);
            },
            None => {
                self.labels.remove(&id);
            },
        }
    }

    /// Schedule an event. Gives back its number.
    pub fn schedule_ex(
        &mut self,
        trigger: Trigger,
        effect: Effect,
        label: Option<String>,
        repeat: bool,
    ) -> (r: u32)
        requires
            old(self)@.next_id < u32::MAX,
        ensures
            r == old(self)@.next_id,
            final(self)@ == (ScenarioState {
                events: old(self)@.events.push(
                    ScheduledEvent { id: r, trigger, effect, repeat, fired: false, seen: 0 },
                ),
                next_id: (r + 1) as u32,
                labels: labelled(old(self)@.labels, r, label),
                ..old(self)@
            }),
    {
        let id: u32 = self.next_id;
        self.next_id = id + 1;
        self.events.push(ScheduledEvent { id, trigger, effect, repeat, fired: false, seen: 0 });
        self.set_label(id, label);
        id
    }

    /// Take a scheduled event out. `false` where there is none of that number.
    pub fn cancel(&mut self, id: u32) -> (r: bool)
        ensures
            r == exists|i: int|
                0 <= i < old(self)@.events.len() && (#[trigger] old(self)@.events[i]).id == id,
            final(self)@ == (ScenarioState {
                events: old(self)@.events.filter(|e: ScheduledEvent| e.id != id),
                labels: if r {
                    old(self)@.labels.remove(id)
                } else {
                    old(self)@.labels
                },
                ..old(self)@
            }),
    {
        let ghost keep = |e: ScheduledEvent| e.id != id;
        let mut kept: Vec<ScheduledEvent> = Vec::new();
        let mut found: bool = false;
        let n: usize = self.events.len();
        proof {
            reveal(Seq::filter);
            assert(self.events@.take(0) =~= Seq::<ScheduledEvent>::empty());
        }
        for i in 0..n
            invariant
                n == self.events@.len(),
                *self == *old(self),
                keep == (|e: ScheduledEvent| e.id != id),
                kept@ == self.events@.take(i as int).filter(keep),
                found == exists|k: int| 0 <= k < i && (#[trigger] self.events@[k]).id == id,
        {
            proof {
                reveal(Seq::filter);
                assert(self.events@.take(i + 1).drop_last() =~= self.events@.take(i as int));
                assert(self.events@.take(i + 1).last() == self.events@[i as int]);
            }
            let e: ScheduledEvent = self.events[i];
            if e.id == id {
                found = true;
                assert(self.events@[i as int].id == id);
            } else {
                kept.push(e);
            }
        }
        assert(self.events@.take(n as int) =~= self.events@);
        self.events = kept;
        if found {
            self.labels.remove(&id);
        }
        found
    }

    /// Set a watchpoint. Gives back its number.
    pub fn add_watchpoint(
        &mut self,
        address: u32,
        size: u32,
        mode: MmioWatchMode,
        action: MmioWatchAction,
        label: Option<String>,
        condition: Option<ValueCondition>,
    ) -> (r: u32)
        requires
            old(self)@.next_id < u32::MAX,
        ensures
            r == old(self)@.next_id,
            final(self)@ == (ScenarioState {
                watchpoints: old(self)@.watchpoints.push(
                    MmioWatchpoint { id: r, address, size, mode, action, condition },
                ),
                next_id: (r + 1) as u32,
                labels: labelled(old(self)@.labels, r, label),
                ..old(self)@
            }),
    {
        let id: u32 = self.next_id;
        self.next_id = id + 1;
        self.watchpoints.push(MmioWatchpoint { id, address, size, mode, action, condition });
        self.set_label(id, label);
        id
    }

    /// Take a watchpoint out. `false` where there is none of that number.
    pub fn remove_watchpoint(&mut self, id: u32) -> (r: bool)
        ensures
            r == exists|i: int|
                0 <= i < old(self)@.watchpoints.len() && (#[trigger] old(self)@.watchpoints[i]).id
                    == id,
            final(self)@ == (ScenarioState {
                watchpoints: old(self)@.watchpoints.filter(|w: MmioWatchpoint| w.id != id),
                labels: if r {
                    old(self)@.labels.remove(id)
                } else {
                    old(self)@.labels
                },
                ..old(self)@
            }),
    {
        let ghost keep = |w: MmioWatchpoint| w.id != id;
        let mut kept: Vec<MmioWatchpoint> = Vec::new();
        let mut found: bool = false;
        let n: usize = self.watchpoints.len();
        proof {
            reveal(Seq::filter);
            assert(self.watchpoints@.take(0) =~= Seq::<MmioWatchpoint>::empty());
        }
        for i in 0..n
            invariant
                n == self.watchpoints@.len(),
                *self == *old(self),
                keep == (|w: MmioWatchpoint| w.id != id),
                kept@ == self.watchpoints@.take(i as int).filter(keep),
                found == exists|k: int| 0 <= k < i && (#[trigger] self.watchpoints@[k]).id == id,
        {
            proof {
                reveal(Seq::filter);
                assert(self.watchpoints@.take(i + 1).drop_last() =~= self.watchpoints@.take(
                    i as int,
                ));
                assert(self.watchpoints@.take(i + 1).last() == self.watchpoints@[i as int]);
            }
            let w: MmioWatchpoint = self.watchpoints[i];
            if w.id == id {
                found = true;
                assert(self.watchpoints@[i as int].id == id);
            } else {
                kept.push(w);
            }
        }
        assert(self.watchpoints@.take(n as int) =~= self.watchpoints@);
        self.watchpoints = kept;
        if found {
            self.labels.remove(&id);
        }
        found
    }

    /// The label of an event or a watchpoint, if it has one.
    pub fn label_of(&self, id: u32) -> (r: Option<String>)
        ensures
            crate::text::opt_text(r) == (if self@.labels.dom().contains(id) {
                Some(self@.labels[id]@)
            } else {
                None
            }),
    {
        match self.labels.get(&id) {
            Some(text) => Some(text.clone()),
            None => None,
        }
    }

    /// Remove every override, event and watchpoint.
    pub fn clear_all(&mut self)
        ensures
            final(self)@ == (ScenarioState {
                overrides: OverrideState::nothing(),
                events: Seq::empty(),
                watchpoints: Seq::empty(),
                labels: Map::empty(),
                ..old(self)@
            }),
    {
        self.overrides.clear();
        self.events = Vec::new();
        self.watchpoints = Vec::new();
        self.labels = HashMap::new();
    }

    fn apply(&mut self, effect: Effect)
        ensures
            final(self)@ == old(self)@.applied(effect),
    {
        match effect {
            Effect::SetOverride { address, spec } => self.overrides.set(address, spec, None),
            Effect::RemoveOverride { address } => {
                let _ = self.overrides.remove(address);
            },
            Effect::WriteMmio { address, value } => {
                self.deferred.push(DeferredWrite { address, value });
            },
            Effect::Pause => {
                self.pause_requested = true;
            },
        }
    }

    fn note_event(&mut self, i: usize, is_write: bool, addr: u32)
        requires
            i < old(self)@.events.len(),
        ensures
            ({
                let e = old(self)@.events[i as int];
                final(self)@ == (ScenarioState {
                    events: old(self)@.events.update(i as int, e.after_access(is_write, addr)),
                    ..old(self)@
                }).applied_if(e.fires_on(is_write, addr), e.effect)
            }),
    {
        let e: ScheduledEvent = self.events[i];
        let (next, fires) = e.note_access(is_write, addr);
        self.events.set(i, next);
        if fires {
            self.apply(e.effect);
        }
    }

    fn time_event(&mut self, i: usize, insns: u64)
        requires
            i < old(self)@.events.len(),
        ensures
            ({
                let e = old(self)@.events[i as int];
                final(self)@ == (ScenarioState {
                    events: old(self)@.events.update(i as int, e.after_instructions(insns)),
                    ..old(self)@
                }).applied_if(e.fires_at(insns), e.effect)
            }),
    {
        let e: ScheduledEvent = self.events[i];
        let (next, fires) = e.note_instructions(insns);
        self.events.set(i, next);
        if fires {
            self.apply(e.effect);
        }
    }

    fn on_access(&mut self, is_write: bool, addr: u32, val: u32)
        ensures
            final(self)@ == old(self)@.after_access(is_write, addr, val),
    {
        proof {
            reveal(ScenarioState::after_access);
        }
        let ghost start = self@;
        let n: usize = self.events.len();
        for i in 0..n
            invariant
                n == start.events.len(),
                self@ == start.events_noted(is_write, addr, i as nat),
                self@.events.len() == n,
                self@.watchpoints == start.watchpoints,
                forall|k: int| i <= k < n ==> self@.events[k] == #[trigger] start.events[k],
        {
            self.note_event(i, is_write, addr);
        }
        let ghost noted = self@;
        let m: usize = self.watchpoints.len();
        for i in 0..m
            invariant
                m == noted.watchpoints.len(),
                self@ == noted.watched(is_write, addr, val, i as nat),
                self@.watchpoints == noted.watchpoints,
        {
            let w: MmioWatchpoint = self.watchpoints[i];
            if w.matches(is_write, addr, val) {
                self.apply(w.action.effect());
            }
        }
    }

    /// Note a read of the bus and the value it gave.
    pub fn on_mmio_read(&mut self, addr: u32, value: u32)
        ensures
            final(self)@ == old(self)@.after_access(false, addr, value),
    {
        self.on_access(false, addr, value);
    }

    /// Note a write of the bus.
    pub fn on_mmio_write(&mut self, addr: u32, value: u32)
        ensures
            final(self)@ == old(self)@.after_access(true, addr, value),
    {
        self.on_access(true, addr, value);
    }

    /// Note that instructions have run.
    pub fn tick(&mut self, cpu_instructions: u64)
        ensures
            final(self)@ == old(self)@.after_tick(cpu_instructions),
    {
        proof {
            reveal(ScenarioState::after_tick);
        }
        let insns: u64 = if cpu_instructions > u64::MAX - self.insns {
            u64::MAX
        } else {
            self.insns + cpu_instructions
        };
        self.insns = insns;
        let ghost start = self@;
        let n: usize = self.events.len();
        for i in 0..n
            invariant
                n == start.events.len(),
                self@ == start.events_timed(insns, i as nat),
                self@.events.len() == n,
                forall|k: int| i <= k < n ==> self@.events[k] == #[trigger] start.events[k],
        {
            self.time_event(i, insns);
        }
    }
}

/// The events of a list have counted an access, and nothing else of it changed
/// but what they set off.
proof fn lemma_events_noted(s: ScenarioState, is_write: bool, addr: u32, n: nat)
    requires
        n <= s.events.len(),
    ensures
        ({
            let after = s.events_noted(is_write, addr, n);
            &&& after.events.len() == s.events.len()
            &&& after.watchpoints == s.watchpoints
            &&& after.next_id == s.next_id
            &&& after.insns == s.insns
            &&& s.pause ==> after.pause
            &&& forall|k: int|
                0 <= k < s.events.len() ==> #[trigger] after.events[k] == (if k < n {
                    s.events[k].after_access(is_write, addr)
                } else {
                    s.events[k]
                })
        }),
    decreases n,
{
    if n > 0 {
        lemma_events_noted(s, is_write, addr, (n - 1) as nat);
    }
}

proof fn lemma_watched(s: ScenarioState, is_write: bool, addr: u32, val: u32, n: nat)
    requires
        n <= s.watchpoints.len(),
    ensures
        s.watched(is_write, addr, val, n).events == s.events,
        s.watched(is_write, addr, val, n).watchpoints == s.watchpoints,
        s.pause ==> s.watched(is_write, addr, val, n).pause,
    decreases n,
{
    if n > 0 {
        lemma_watched(s, is_write, addr, val, (n - 1) as nat);
    }
}

/// Every event counts every access, whatever the others set off, and the
/// watchpoints stay as they are.
pub proof fn law_every_event_counts_every_access(
    s: ScenarioState,
    is_write: bool,
    addr: u32,
    val: u32,
    i: int,
)
    requires
        0 <= i < s.events.len(),
    ensures
        s.after_access(is_write, addr, val).events[i] == s.events[i].after_access(is_write, addr),
        s.after_access(is_write, addr, val).events.len() == s.events.len(),
        s.after_access(is_write, addr, val).watchpoints == s.watchpoints,
{
    reveal(ScenarioState::after_access);
    lemma_events_noted(s, is_write, addr, s.events.len());
    lemma_watched(
        s.events_noted(is_write, addr, s.events.len()),
        is_write,
        addr,
        val,
        s.watchpoints.len(),
    );
}

/// An access a pausing watchpoint sees asks for a pause.
pub proof fn law_seen_access_pauses(
    s: ScenarioState,
    is_write: bool,
    addr: u32,
    val: u32,
    i: int,
)
    requires
        0 <= i < s.watchpoints.len(),
        s.watchpoints[i].sees(is_write, addr, val),
        s.watchpoints[i].action is Pause,
    ensures
        s.after_access(is_write, addr, val).pause,
{
    reveal(ScenarioState::after_access);
    let noted = s.events_noted(is_write, addr, s.events.len());
    lemma_events_noted(s, is_write, addr, s.events.len());
    lemma_pause_stays(noted, is_write, addr, val, i, s.watchpoints.len());
}

proof fn lemma_pause_stays(
    s: ScenarioState,
    is_write: bool,
    addr: u32,
    val: u32,
    i: int,
    n: nat,
)
    requires
        0 <= i < n <= s.watchpoints.len(),
        s.watchpoints[i].sees(is_write, addr, val),
        s.watchpoints[i].action is Pause,
    ensures
        s.watched(is_write, addr, val, n).pause,
    decreases n,
{
    if i < n - 1 {
        lemma_pause_stays(s, is_write, addr, val, i, (n - 1) as nat);
    }
}

/// An event after `k` accesses it counts.
pub open spec fn after_many(e: ScheduledEvent, is_write: bool, addr: u32, k: nat) -> ScheduledEvent
    decreases k,
{
    if k == 0 {
        e
    } else {
        after_many(e, is_write, addr, (k - 1) as nat).after_access(is_write, addr)
    }
}

/// A fresh event waits for exactly as many accesses as it was set for: it does
/// not fire on the ones before, and fires on that one.
pub proof fn law_event_fires_on_its_occurrence(
    e: ScheduledEvent,
    is_write: bool,
    addr: u32,
    n: u32,
    k: nat,
)
    requires
        !e.fired,
        e.seen == 0,
        e.trigger == (Trigger::OnMmioRead { address: addr, occurrence: n }) && !is_write
            || e.trigger == (Trigger::OnMmioWrite { address: addr, occurrence: n }) && is_write,
        k < n,
    ensures
        ({
            let before = after_many(e, is_write, addr, k);
            &&& !before.fired
            &&& before.seen == k
            &&& before == (ScheduledEvent { seen: k as u64, ..e })
            &&& before.fires_on(is_write, addr) == (k + 1 == n)
            &&& k + 1 == n ==> before.after_access(is_write, addr) == (ScheduledEvent {
                fired: true,
                seen: 0,
                ..e
            })
        }),
    decreases k,
{
    if k > 0 {
        law_event_fires_on_its_occurrence(e, is_write, addr, n, (k - 1) as nat);
    }
}

/// An event counts accesses of its own direction and address alone.
pub proof fn law_event_ignores_other_accesses(e: ScheduledEvent, is_write: bool, addr: u32)
    ensures
        e.trigger matches Trigger::OnMmioRead { address, .. } ==> (is_write || address != addr
            ==> !e.fires_on(is_write, addr) && e.after_access(is_write, addr) == e),
        e.trigger matches Trigger::OnMmioWrite { address, .. } ==> (!is_write || address != addr
            ==> !e.fires_on(is_write, addr) && e.after_access(is_write, addr) == e),
        e.trigger is AtInstruction ==> !e.fires_on(is_write, addr) && e.after_access(
            is_write,
            addr,
        ) == e,
{
}

/// An event that waits for instructions fires once as many as it was set for
/// have run since it was armed, and is armed again from there if it repeats.
pub proof fn law_event_fires_at_its_instruction(e: ScheduledEvent, n: u64, insns: u64, later: u64)
    requires
        e.trigger == (Trigger::AtInstruction { n }),
    ensures
        !e.fired || e.repeat ==> (e.fires_at(insns) <==> insns >= e.seen + n),
        e.fires_at(insns) ==> e.after_instructions(insns) == (ScheduledEvent {
            fired: true,
            seen: insns,
            ..e
        }),
        !e.fires_at(insns) ==> e.after_instructions(insns) == e,
        e.repeat && e.fires_at(insns) ==> (e.after_instructions(insns).fires_at(later) <==> later
            >= insns + n),
{
}

/// Instructions alone never set off an event that waits for an access.
pub proof fn law_other_events_do_not_fire_by_instructions(e: ScheduledEvent, insns: u64)
    requires
        !(e.trigger is AtInstruction),
    ensures
        !e.fires_at(insns),
        e.after_instructions(insns) == e,
{
}

/// An event that fired and does not repeat never fires again.
pub proof fn law_spent_event_stays_spent(e: ScheduledEvent, is_write: bool, addr: u32, insns: u64)
    requires
        e.fired,
        !e.repeat,
    ensures
        !e.fires_on(is_write, addr),
        !e.fires_at(insns),
        e.after_access(is_write, addr) == e,
        e.after_instructions(insns) == e,
{
}

/// A one-shot override answers exactly as many reads as it was set for, and
/// goes with its label.
pub proof fn law_one_shot_expires(
    m: OverrideState,
    addr: u32,
    value: u32,
    count: u32,
    label: Option<String>,
)
    requires
        count > 0,
    ensures
        ({
            let set = m.with(addr, OverrideSpec::OneShotRead { value, remaining: count }, label);
            let after = overrides_after_read(set, addr);
            &&& override_answer(set, addr) == Some(value)
            &&& count > 1 ==> after == m.with(
                addr,
                OverrideSpec::OneShotRead { value, remaining: (count - 1) as u32 },
                label,
            )
            &&& count == 1 ==> after == m.without(addr) && override_answer(after, addr) is None
        }),
{
    let set = m.with(addr, OverrideSpec::OneShotRead { value, remaining: count }, label);
    if count > 1 {
        assert(overrides_after_read(set, addr) =~= m.with(
            addr,
            OverrideSpec::OneShotRead { value, remaining: (count - 1) as u32 },
            label,
        ));
    } else {
        assert(overrides_after_read(set, addr) =~= m.without(addr));
    }
}

/// A static override answers every read alike, and keeps its label.
pub proof fn law_static_override_stays(
    m: OverrideState,
    addr: u32,
    value: u32,
    label: Option<String>,
)
    ensures
        ({
            let set = m.with(addr, OverrideSpec::StaticRead { value }, label);
            &&& override_answer(set, addr) == Some(value)
            &&& overrides_after_read(set, addr) == set
        }),
{
}

/// A watchpoint looks at its own bytes: those from its address on, as many as
/// its size. One of reads sees no write and one of writes no read; one of both
/// sees what either of them sees. With a condition it sees, of what it would see
/// without one, the values whose masked bits are as expected.
pub proof fn law_watchpoint_looks_at_its_accesses(
    w: MmioWatchpoint,
    is_write: bool,
    addr: u32,
    val: u32,
    mask: u32,
    expect: u32,
)
    ensures
        ({
            let plain = MmioWatchpoint { condition: None, ..w };
            let read = MmioWatchpoint { mode: MmioWatchMode::Read, ..w };
            let write = MmioWatchpoint { mode: MmioWatchMode::Write, ..w };
            let both = MmioWatchpoint { mode: MmioWatchMode::ReadWrite, ..w };
            let held = MmioWatchpoint {
                condition: Some(ValueCondition::MaskEqual { mask, expect }),
                ..w
            };
            let inside = 0 <= addr - w.address < w.size;
            &&& !read.sees(true, addr, val)
            &&& !write.sees(false, addr, val)
            &&& both.sees(is_write, addr, val) == (read.sees(is_write, addr, val) || write.sees(
                is_write,
                addr,
                val,
            ))
            &&& w.condition is None ==> read.sees(false, addr, val) == inside && write.sees(
                true,
                addr,
                val,
            ) == inside
            &&& held.sees(is_write, addr, val) == (plain.sees(is_write, addr, val) && val & mask
                == expect)
        }),
{
}

/// What an override lets through of a write has none of the masked bits and all
/// the others; overrides of reads let a write pass.
pub proof fn law_masked_bits_are_lost(
    m: OverrideState,
    addr: u32,
    mask: u32,
    val: u32,
    label: Option<String>,
    value: u32,
    remaining: u32,
)
    ensures
        ({
            let set = m.with(addr, OverrideSpec::MaskedWriteIgnore { mask }, label);
            let left = masked_write(set, addr, val);
            &&& left is Some
            &&& left->0 & mask == 0
            &&& left->0 & !mask == val & !mask
            &&& override_answer(set, addr) is None
            &&& overrides_after_read(set, addr) == set
            &&& masked_write(
                m.with(addr, OverrideSpec::StaticRead { value }, label),
                addr,
                val,
            ) is None
            &&& masked_write(
                m.with(addr, OverrideSpec::OneShotRead { value, remaining }, label),
                addr,
                val,
            ) is None
            &&& masked_write(m.without(addr), addr, val) is None
            &&& override_answer(m.without(addr), addr) is None
        }),
{
    crate::bits::lemma_clear_bits(val, mask);
}

/// An override acts at its own address alone.
pub proof fn law_overrides_are_apart(
    m: OverrideState,
    addr: u32,
    spec: OverrideSpec,
    label: Option<String>,
    other: u32,
    val: u32,
)
    requires
        other != addr,
    ensures
        override_answer(m.with(addr, spec, label), other) == override_answer(m, other),
        override_answer(m.without(addr), other) == override_answer(m, other),
        override_answer(overrides_after_read(m, addr), other) == override_answer(m, other),
        masked_write(m.with(addr, spec, label), other, val) == masked_write(m, other, val),
        masked_write(m.without(addr), other, val) == masked_write(m, other, val),
        masked_write(overrides_after_read(m, addr), other, val) == masked_write(m, other, val),
{
}

/// An override is called by its label, and by none where it was given none.
pub proof fn law_labels_go_with_their_override(
    m: OverrideState,
    addr: u32,
    spec: OverrideSpec,
    text: String,
    other: u32,
)
    ensures
        m.with(addr, spec, Some(text)).labels[addr] == text,
        m.with(addr, spec, Some(text)).labels.dom().contains(addr),
        !m.with(addr, spec, None).labels.dom().contains(addr),
        !m.without(addr).labels.dom().contains(addr),
        other != addr ==> m.with(addr, spec, Some(text)).labels.dom().contains(other)
            == m.labels.dom().contains(other),
        m.with(addr, spec, None).specs[addr] == spec,
{
}

/// An effect does what its name says and nothing beside it.
pub proof fn law_effects_do_one_thing(
    s: ScenarioState,
    addr: u32,
    value: u32,
    spec: OverrideSpec,
)
    ensures
        s.applied(Effect::Pause) == (ScenarioState { pause: true, ..s }),
        s.applied(Effect::WriteMmio { address: addr, value }) == (ScenarioState {
            deferred: s.deferred.push(DeferredWrite { address: addr, value }),
            ..s
        }),
        ({
            let set = s.applied(Effect::SetOverride { address: addr, spec });
            &&& set.overrides.specs == s.overrides.specs.insert(addr, spec)
            &&& set == (ScenarioState { overrides: set.overrides, ..s })
        }),
        ({
            let gone = s.applied(Effect::RemoveOverride { address: addr });
            &&& gone.overrides.specs == s.overrides.specs.remove(addr)
            &&& gone == (ScenarioState { overrides: gone.overrides, ..s })
        }),
        MmioWatchAction::Pause.as_effect() == Effect::Pause,
        MmioWatchAction::Fire(Effect::WriteMmio { address: addr, value }).as_effect()
            == (Effect::WriteMmio { address: addr, value }),
{
}

proof fn lemma_events_pause(s: ScenarioState, is_write: bool, addr: u32, i: int, n: nat)
    requires
        n <= s.events.len(),
    ensures
        s.pause ==> s.events_noted(is_write, addr, n).pause,
        0 <= i < n && s.events[i].fires_on(is_write, addr) && s.events[i].effect is Pause
            ==> s.events_noted(is_write, addr, n).pause,
    decreases n,
{
    if n > 0 {
        lemma_events_pause(s, is_write, addr, i, (n - 1) as nat);
    }
}

proof fn lemma_watch_keeps_pause(s: ScenarioState, is_write: bool, addr: u32, val: u32, n: nat)
    requires
        s.pause,
    ensures
        s.watched(is_write, addr, val, n).pause,
    decreases n,
{
    if n > 0 {
        lemma_watch_keeps_pause(s, is_write, addr, val, (n - 1) as nat);
    }
}

/// An access on which a pausing event fires asks for a pause.
pub proof fn law_fired_event_pauses(
    s: ScenarioState,
    is_write: bool,
    addr: u32,
    val: u32,
    i: int,
)
    requires
        0 <= i < s.events.len(),
        s.events[i].fires_on(is_write, addr),
        s.events[i].effect is Pause,
    ensures
        s.after_access(is_write, addr, val).pause,
{
    reveal(ScenarioState::after_access);
    lemma_events_pause(s, is_write, addr, i, s.events.len());
    lemma_watch_keeps_pause(
        s.events_noted(is_write, addr, s.events.len()),
        is_write,
        addr,
        val,
        s.watchpoints.len(),
    );
}

proof fn lemma_quiet_events(s: ScenarioState, is_write: bool, addr: u32, n: nat)
    requires
        n <= s.events.len(),
        forall|i: int| 0 <= i < n ==> !(#[trigger] s.events[i]).fires_on(is_write, addr),
    ensures
        s.events_noted(is_write, addr, n) == (ScenarioState {
            events: s.events_noted(is_write, addr, n).events,
            ..s
        }),
    decreases n,
{
    if n > 0 {
        lemma_quiet_events(s, is_write, addr, (n - 1) as nat);
    }
}

proof fn lemma_quiet_watchpoints(s: ScenarioState, is_write: bool, addr: u32, val: u32, n: nat)
    requires
        n <= s.watchpoints.len(),
        forall|i: int| 0 <= i < n ==> !(#[trigger] s.watchpoints[i]).sees(is_write, addr, val),
    ensures
        s.watched(is_write, addr, val, n) == s,
    decreases n,
{
    if n > 0 {
        lemma_quiet_watchpoints(s, is_write, addr, val, (n - 1) as nat);
    }
}

/// An access that no event waits for and no watchpoint sees has no effect but on
/// the counts of the events.
pub proof fn law_quiet_access_has_no_effect(
    s: ScenarioState,
    is_write: bool,
    addr: u32,
    val: u32,
)
    requires
        forall|i: int|
            0 <= i < s.events.len() ==> !(#[trigger] s.events[i]).fires_on(is_write, addr),
        forall|i: int|
            0 <= i < s.watchpoints.len() ==> !(#[trigger] s.watchpoints[i]).sees(
                is_write,
                addr,
                val,
            ),
    ensures
        s.after_access(is_write, addr, val) == (ScenarioState {
            events: s.after_access(is_write, addr, val).events,
            ..s
        }),
{
    reveal(ScenarioState::after_access);
    lemma_quiet_events(s, is_write, addr, s.events.len());
    let noted = s.events_noted(is_write, addr, s.events.len());
    assert(noted.watchpoints == s.watchpoints);
    lemma_quiet_watchpoints(noted, is_write, addr, val, s.watchpoints.len());
}

/// The effect of the only watchpoint that sees an access is carried out, where
/// no event fires on it.
pub proof fn law_lone_watchpoint_acts(s: ScenarioState, is_write: bool, addr: u32, val: u32, k: int)
    requires
        0 <= k < s.watchpoints.len(),
        s.events.len() == 0,
        forall|i: int|
            0 <= i < s.watchpoints.len() ==> ((#[trigger] s.watchpoints[i]).sees(
                is_write,
                addr,
                val,
            ) <==> i == k),
    ensures
        s.after_access(is_write, addr, val) == s.applied(s.watchpoints[k].action.as_effect()),
{
    reveal(ScenarioState::after_access);
    lemma_lone_watchpoint(s, is_write, addr, val, k, s.watchpoints.len());
}

proof fn lemma_lone_watchpoint(
    s: ScenarioState,
    is_write: bool,
    addr: u32,
    val: u32,
    k: int,
    n: nat,
)
    requires
        0 <= k < s.watchpoints.len(),
        n <= s.watchpoints.len(),
        forall|i: int|
            0 <= i < s.watchpoints.len() ==> ((#[trigger] s.watchpoints[i]).sees(
                is_write,
                addr,
                val,
            ) <==> i == k),
    ensures
        k < n ==> s.watched(is_write, addr, val, n) == s.applied(
            s.watchpoints[k].action.as_effect(),
        ),
        k >= n ==> s.watched(is_write, addr, val, n) == s,
    decreases n,
{
    if n > 0 {
        lemma_lone_watchpoint(s, is_write, addr, val, k, (n - 1) as nat);
        assert(s.watchpoints[n - 1].sees(is_write, addr, val) <==> n - 1 == k);
    }
}

proof fn lemma_events_timed(s: ScenarioState, insns: u64, n: nat, i: int)
    requires
        n <= s.events.len(),
        0 <= i < s.events.len(),
    ensures
        ({
            let after = s.events_timed(insns, n);
            &&& after.events.len() == s.events.len()
            &&& i < n ==> after.events[i] == s.events[i].after_instructions(insns)
            &&& i >= n ==> after.events[i] == s.events[i]
            &&& s.pause ==> after.pause
            &&& i < n && s.events[i].fires_at(insns) && s.events[i].effect is Pause ==> after.pause
            &&& after.insns == s.insns
            &&& after.watchpoints == s.watchpoints
        }),
    decreases n,
{
    if n > 0 {
        lemma_events_timed(s, insns, (n - 1) as nat, i);
    }
}

/// A tick adds the instructions that ran, up to the largest count there is, and
/// every event looks at the new count. One that fires and pauses asks for a
/// pause.
pub proof fn law_tick_times_every_event(s: ScenarioState, cpu_instructions: u64, i: int)
    requires
        0 <= i < s.events.len(),
    ensures
        ({
            let after = s.after_tick(cpu_instructions);
            let sum = s.insns + cpu_instructions;
            &&& sum <= u64::MAX ==> after.insns == sum
            &&& sum > u64::MAX ==> after.insns == u64::MAX
            &&& after.events.len() == s.events.len()
            &&& after.events[i] == s.events[i].after_instructions(after.insns)
            &&& after.watchpoints == s.watchpoints
            &&& s.events[i].fires_at(after.insns) && s.events[i].effect is Pause ==> after.pause
        }),
{
    reveal(ScenarioState::after_tick);
    let insns = s.insns_after(cpu_instructions);
    lemma_events_timed(ScenarioState { insns, ..s }, insns, s.events.len(), i);
}

proof fn lemma_quiet_times(s: ScenarioState, insns: u64, n: nat)
    requires
        n <= s.events.len(),
        forall|i: int| 0 <= i < n ==> !(#[trigger] s.events[i]).fires_at(insns),
    ensures
        s.events_timed(insns, n) == (ScenarioState {
            events: s.events_timed(insns, n).events,
            ..s
        }),
    decreases n,
{
    if n > 0 {
        lemma_quiet_times(s, insns, (n - 1) as nat);
    }
}

/// A tick at which no event is due has no effect.
pub proof fn law_quiet_tick_has_no_effect(s: ScenarioState, cpu_instructions: u64)
    requires
        forall|i: int|
            0 <= i < s.events.len() ==> !(#[trigger] s.events[i]).fires_at(
                s.after_tick(cpu_instructions).insns,
            ),
        s.insns + cpu_instructions <= u64::MAX,
        s.events.len() > 0,
    ensures
        ({
            let after = s.after_tick(cpu_instructions);
            after == (ScenarioState { events: after.events, insns: after.insns, ..s })
        }),
{
    law_tick_times_every_event(s, cpu_instructions, 0);
    reveal(ScenarioState::after_tick);
    let insns = s.insns_after(cpu_instructions);
    let now = ScenarioState { insns, ..s };
    assert forall|i: int| 0 <= i < now.events.len() implies !(#[trigger] now.events[i]).fires_at(
        insns,
    ) by {
        assert(!s.events[i].fires_at(insns));
    }
    lemma_quiet_times(now, insns, s.events.len());
}

} // verus!
