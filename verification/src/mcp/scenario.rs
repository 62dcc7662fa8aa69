//! Scheduled events and watchpoints of the bus, as a front end asks for them.

use vstd::prelude::*;

use crate::mcp::events::mmio_watch_mode_of;
use crate::mcp::handler::{
    CancelEventParams, OkResult, RemoveMmioWatchpointParams, ScheduleEventParams,
    ScheduleEventResult, SetMmioWatchpointParams, SetMmioWatchpointResult,
};
use crate::mcp::json::{node_number, node_text, read_json, read_member, JsonNode, JsonView};
use crate::mcp::symbols::address_of_node;
use crate::soc::scenario::{
    Effect, MmioWatchAction, MmioWatchpoint, OverrideSpec, ScenarioEngine, ScenarioState,
    ScheduledEvent, Trigger, ValueCondition,
};
use crate::text::same_text;

verus! {

/// A count, one where none is given. What does not fit is cut off.
pub open spec fn count_in(v: Result<JsonView, Seq<char>>) -> u32 {
    match crate::mcp::json::number_in(v) {
        Some(n) => n as u32,
        None => 1,
    }
}

fn count_of(v: &Result<JsonNode, String>) -> (r: u32)
    ensures
        r == count_in(crate::mcp::json::outcome(*v)),
{
    match node_number(v) {
        Some(n) => #[verifier::truncate] (n as u32),
        None => 1,
    }
}

/// The trigger a JSON value describes, if it describes one.
pub open spec fn trigger_in(v: Result<JsonView, Seq<char>>) -> Option<Trigger> {
    match v {
        Ok(JsonView::Object(m)) => {
            let kind = crate::mcp::json::text_in(crate::mcp::json::member_view(m, "type"@));
            let address = crate::mcp::symbols::address_of_view(
                crate::mcp::json::member_view(m, "address"@),
            );
            let occurrence = count_in(crate::mcp::json::member_view(m, "occurrence"@));
            if kind == Some("at_instruction"@) {
                match crate::mcp::json::number_in(crate::mcp::json::member_view(m, "n"@)) {
                    Some(n) => Some(Trigger::AtInstruction { n }),
                    None => None,
                }
            } else if kind == Some("on_mmio_read"@) && address is Some {
                Some(Trigger::OnMmioRead { address: address->0, occurrence })
            } else if kind == Some("on_mmio_write"@) && address is Some {
                Some(Trigger::OnMmioWrite { address: address->0, occurrence })
            } else {
                None
            }
        },
        _ => None,
    }
}

/// The trigger a JSON value that was read describes.
pub fn parse_trigger(v: Result<JsonNode, String>) -> (r: Option<Trigger>)
    ensures
        r == trigger_in(crate::mcp::json::outcome(v)),
{
    let m = match v {
        Ok(JsonNode::Object(m)) => m,
        _ => return None,
    };
    let kind: String = match node_text(&read_member(&m, "type")) {
        Some(k) => k,
        None => return None,
    };
    if same_text(kind.as_str(), "at_instruction") {
        return match node_number(&read_member(&m, "n")) {
            Some(n) => Some(Trigger::AtInstruction { n }),
            None => None,
        };
    }
    let address: u32 = match address_of_node(&read_member(&m, "address")) {
        Some(a) => a,
        None => return None,
    };
    let occurrence: u32 = count_of(&read_member(&m, "occurrence"));
    if same_text(kind.as_str(), "on_mmio_read") {
        Some(Trigger::OnMmioRead { address, occurrence })
    } else if same_text(kind.as_str(), "on_mmio_write") {
        Some(Trigger::OnMmioWrite { address, occurrence })
    } else {
        None
    }
}

/// The override a mode stands for, if it stands for one. An override answers
/// every read where no mode is given.
pub open spec fn override_in(mode: Option<Seq<char>>, value: u32, count: u32) -> Option<
    OverrideSpec,
> {
    if mode is None || mode == Some("static"@) {
        Some(OverrideSpec::StaticRead { value })
    } else if mode == Some("oneshot"@) {
        Some(OverrideSpec::OneShotRead { value, remaining: count })
    } else if mode == Some("mask"@) {
        Some(OverrideSpec::MaskedWriteIgnore { mask: value })
    } else {
        None
    }
}

fn override_of(mode: &Option<String>, value: u32, count: u32) -> (r: Option<OverrideSpec>)
    ensures
        r == override_in(crate::text::opt_text(*mode), value, count),
{
    match mode {
        None => Some(OverrideSpec::StaticRead { value }),
        Some(m) => {
            if same_text(m.as_str(), "static") {
                Some(OverrideSpec::StaticRead { value })
            } else if same_text(m.as_str(), "oneshot") {
                Some(OverrideSpec::OneShotRead { value, remaining: count })
            } else if same_text(m.as_str(), "mask") {
                Some(OverrideSpec::MaskedWriteIgnore { mask: value })
            } else {
                None
            }
        },
    }
}

/// The effect a JSON value describes, if it describes one.
pub open spec fn effect_in(v: Result<JsonView, Seq<char>>) -> Option<Effect> {
    match v {
        Ok(JsonView::Object(m)) => {
            let kind = crate::mcp::json::text_in(crate::mcp::json::member_view(m, "type"@));
            let address = crate::mcp::symbols::address_of_view(
                crate::mcp::json::member_view(m, "address"@),
            );
            let value = crate::mcp::symbols::address_of_view(
                crate::mcp::json::member_view(m, "value"@),
            );
            if kind == Some("pause"@) {
                Some(Effect::Pause)
            } else if kind == Some("remove_override"@) && address is Some {
                Some(Effect::RemoveOverride { address: address->0 })
            } else if kind == Some("write_mmio"@) && address is Some && value is Some {
                Some(Effect::WriteMmio { address: address->0, value: value->0 })
            } else if kind == Some("set_override"@) && address is Some && value is Some {
                match override_in(
                    crate::mcp::json::text_in(crate::mcp::json::member_view(m, "mode"@)),
                    value->0,
                    count_in(crate::mcp::json::member_view(m, "count"@)),
                ) {
                    Some(spec) => Some(Effect::SetOverride { address: address->0, spec }),
                    None => None,
                }
            } else {
                None
            }
        },
        _ => None,
    }
}

/// The effect a JSON value that was read describes.
pub fn parse_effect(v: Result<JsonNode, String>) -> (r: Option<Effect>)
    ensures
        r == effect_in(crate::mcp::json::outcome(v)),
{
    proof {
        lemma_kinds_differ();
    }
    let m = match v {
        Ok(JsonNode::Object(m)) => m,
        _ => return None,
    };
    let kind: String = match node_text(&read_member(&m, "type")) {
        Some(k) => k,
        None => return None,
    };
    if same_text(kind.as_str(), "pause") {
        return Some(Effect::Pause);
    }
    let address: u32 = match address_of_node(&read_member(&m, "address")) {
        Some(a) => a,
        None => return None,
    };
    if same_text(kind.as_str(), "remove_override") {
        return Some(Effect::RemoveOverride { address });
    }
    let value: u32 = match address_of_node(&read_member(&m, "value")) {
        Some(a) => a,
        None => return None,
    };
    if same_text(kind.as_str(), "write_mmio") {
        Some(Effect::WriteMmio { address, value })
    } else if same_text(kind.as_str(), "set_override") {
        let count: u32 = count_of(&read_member(&m, "count"));
        match override_of(&node_text(&read_member(&m, "mode")), value, count) {
            Some(spec) => Some(Effect::SetOverride { address, spec }),
            None => None,
        }
    } else {
        None
    }
}

proof fn lemma_kinds_differ()
    ensures
        "pause"@ != "remove_override"@,
        "write_mmio"@ != "remove_override"@,
        "set_override"@ != "remove_override"@,
{
    reveal_strlit("pause");
    reveal_strlit("remove_override");
    reveal_strlit("write_mmio");
    reveal_strlit("set_override");
    assert("pause"@.len() == 5 && "remove_override"@.len() == 15 && "write_mmio"@.len() == 10
        && "set_override"@.len() == 12);
}

/// The stimulus with an event more.
pub open spec fn scheduled(
    s: ScenarioState,
    trigger: Trigger,
    effect: Effect,
    label: Option<String>,
    repeat: bool,
) -> ScenarioState {
    ScenarioState {
        events: s.events.push(
            ScheduledEvent { id: s.next_id, trigger, effect, repeat, fired: false, seen: 0 },
        ),
        next_id: (s.next_id + 1) as u32,
        labels: crate::soc::scenario::labelled(s.labels, s.next_id, label),
        ..s
    }
}

/// Schedule an event whose trigger and effect were worked out. One that lacks
/// either is refused.
pub fn schedule(
    engine: &mut ScenarioEngine,
    trigger: Option<Trigger>,
    effect: Option<Effect>,
    label: Option<String>,
    repeat: bool,
) -> (r: ScheduleEventResult)
    requires
        old(engine)@.next_id < u32::MAX,
    ensures
        r.ok == (trigger is Some && effect is Some),
        r.id == (if r.ok {
            Some(old(engine)@.next_id)
        } else {
            None
        }),
        final(engine)@ == (if r.ok {
            scheduled(old(engine)@, trigger->0, effect->0, label, repeat)
        } else {
            old(engine)@
        }),
{
    match (trigger, effect) {
        (Some(t), Some(e)) => {
            let id: u32 = engine.schedule_ex(t, e, label, repeat);
            ScheduleEventResult { ok: true, id: Some(id) }
        },
        _ => ScheduleEventResult { ok: false, id: None },
    }
}

/// Schedule the event a request describes.
pub fn schedule_event(engine: &mut ScenarioEngine, params: ScheduleEventParams) -> (r:
    ScheduleEventResult)
    requires
        old(engine)@.next_id < u32::MAX,
    ensures
        ({
            let trigger = trigger_in(crate::mcp::json::json_view(params.trigger@));
            let effect = effect_in(crate::mcp::json::json_view(params.effect@));
            &&& r.ok == (trigger is Some && effect is Some)
            &&& r.id == (if r.ok {
                Some(old(engine)@.next_id)
            } else {
                None
            })
            &&& final(engine)@ == (if r.ok {
                scheduled(old(engine)@, trigger->0, effect->0, params.label, params.repeat)
            } else {
                old(engine)@
            })
        }),
{
    let trigger = parse_trigger(read_json(params.trigger.as_str()));
    let effect = parse_effect(read_json(params.effect.as_str()));
    schedule(engine, trigger, effect, params.label, params.repeat)
}

/// Cancel a scheduled event. It went well where there was one.
pub fn cancel_event(engine: &mut ScenarioEngine, params: &CancelEventParams) -> (r: OkResult)
    ensures
        r.ok == exists|i: int|
            0 <= i < old(engine)@.events.len() && (#[trigger] old(engine)@.events[i]).id
                == params.id,
        final(engine)@ == (ScenarioState {
            events: old(engine)@.events.filter(|e: ScheduledEvent| e.id != params.id),
            labels: if r.ok {
                old(engine)@.labels.remove(params.id)
            } else {
                old(engine)@.labels
            },
            ..old(engine)@
        }),
{
    OkResult { ok: engine.cancel(params.id) }
}

/// Whether a request wants the processor paused: it says so, or nothing.
pub open spec fn wants_pause(action: Option<Seq<char>>) -> bool {
    match action {
        Some(a) => a == "pause"@,
        None => true,
    }
}

/// What a watchpoint is to do: pause, or fire the effect that was worked out.
pub open spec fn asked_action(action: Option<Seq<char>>, effect: Option<Effect>) -> Option<
    MmioWatchAction,
> {
    if wants_pause(action) {
        Some(MmioWatchAction::Pause)
    } else {
        match effect {
            Some(e) => Some(MmioWatchAction::Fire(e)),
            None => None,
        }
    }
}

fn asks_for_pause(action: &Option<String>) -> (r: bool)
    ensures
        r == wants_pause(crate::text::opt_text(*action)),
{
    match action {
        Some(a) => same_text(a.as_str(), "pause"),
        None => true,
    }
}

/// The watchpoint a request asks for, if its accesses and its action are known.
pub open spec fn asked_watchpoint(
    params: SetMmioWatchpointParams,
    effect: Option<Effect>,
    id: u32,
) -> Option<MmioWatchpoint> {
    match (
        crate::mcp::events::watch_mode_in(params.mode@),
        asked_action(crate::text::opt_text(params.action), effect),
    ) {
        (Some(mode), Some(action)) => Some(
            MmioWatchpoint {
                id,
                address: params.address.0,
                size: params.size,
                mode,
                action,
                condition: match params.condition {
                    Some(c) => Some(
                        ValueCondition::MaskEqual { mask: c.mask.0, expect: c.expect.0 },
                    ),
                    None => None,
                },
            },
        ),
        _ => None,
    }
}

/// The stimulus with a watchpoint more, if there is one to be set.
pub open spec fn watching(
    s: ScenarioState,
    w: Option<MmioWatchpoint>,
    label: Option<String>,
) -> ScenarioState {
    match w {
        Some(w) => ScenarioState {
            watchpoints: s.watchpoints.push(w),
            next_id: (s.next_id + 1) as u32,
            labels: crate::soc::scenario::labelled(s.labels, s.next_id, label),
            ..s
        },
        None => s,
    }
}

/// Set the watchpoint a request asks for, the effect it names worked out. One
/// whose accesses are unknown, or whose action is neither a pause nor an
/// effect, is refused.
pub fn watch(
    engine: &mut ScenarioEngine,
    params: SetMmioWatchpointParams,
    effect: Option<Effect>,
) -> (r: SetMmioWatchpointResult)
    requires
        old(engine)@.next_id < u32::MAX,
    ensures
        ({
            let asked = asked_watchpoint(params, effect, old(engine)@.next_id);
            &&& r.ok == asked is Some
            &&& r.id == (if asked is Some {
                Some(old(engine)@.next_id)
            } else {
                None
            })
            &&& final(engine)@ == watching(old(engine)@, asked, params.label)
        }),
{
    let mode = match mmio_watch_mode_of(params.mode.as_str()) {
        Some(m) => m,
        None => return SetMmioWatchpointResult { ok: false, id: None },
    };
    let action: MmioWatchAction = if asks_for_pause(&params.action) {
        MmioWatchAction::Pause
    } else {
        match effect {
            Some(e) => MmioWatchAction::Fire(e),
            None => return SetMmioWatchpointResult { ok: false, id: None },
        }
    };
    let condition: Option<ValueCondition> = match params.condition {
        Some(c) => Some(ValueCondition::MaskEqual { mask: c.mask.0, expect: c.expect.0 }),
        None => None,
    };
    let id: u32 = engine.add_watchpoint(
        params.address.0,
        params.size,
        mode,
        action,
        params.label,
        condition,
    );
    SetMmioWatchpointResult { ok: true, id: Some(id) }
}

/// The effect the action of a request describes, if it describes one.
pub open spec fn action_effect(action: Option<Seq<char>>) -> Option<Effect> {
    match action {
        Some(json) => effect_in(crate::mcp::json::json_view(json)),
        None => None,
    }
}

/// Set the watchpoint a request asks for.
pub fn set_mmio_watchpoint(engine: &mut ScenarioEngine, params: SetMmioWatchpointParams) -> (r:
    SetMmioWatchpointResult)
    requires
        old(engine)@.next_id < u32::MAX,
    ensures
        ({
            let asked = asked_watchpoint(
                params,
                action_effect(crate::text::opt_text(params.action)),
                old(engine)@.next_id,
            );
            &&& r.ok == asked is Some
            &&& r.id == (if asked is Some {
                Some(old(engine)@.next_id)
            } else {
                None
            })
            &&& final(engine)@ == watching(old(engine)@, asked, params.label)
        }),
{
    let effect: Option<Effect> = match &params.action {
        Some(json) => parse_effect(read_json(json.as_str())),
        None => None,
    };
    watch(engine, params, effect)
}

/// Remove a watchpoint. It went well where there was one.
pub fn remove_mmio_watchpoint(engine: &mut ScenarioEngine, params: &RemoveMmioWatchpointParams) -> (r:
    OkResult)
    ensures
        r.ok == exists|i: int|
            0 <= i < old(engine)@.watchpoints.len() && (#[trigger] old(engine)@.watchpoints[i]).id
                == params.id,
        final(engine)@ == (ScenarioState {
            watchpoints: old(engine)@.watchpoints.filter(|w: MmioWatchpoint| w.id != params.id),
            labels: if r.ok {
                old(engine)@.labels.remove(params.id)
            } else {
                old(engine)@.labels
            },
            ..old(engine)@
        }),
{
    OkResult { ok: engine.remove_watchpoint(params.id) }
}

/// Remove every override, event and watchpoint.
pub fn clear_scenario(engine: &mut ScenarioEngine) -> (r: OkResult)
    ensures
        r.ok,
        final(engine)@ == (ScenarioState {
            overrides: crate::soc::scenario::OverrideState::nothing(),
            events: Seq::empty(),
            watchpoints: Seq::empty(),
            labels: Map::empty(),
            ..old(engine)@
        }),
{
    engine.clear_all();
    OkResult { ok: true }
}

/// The override modes of an effect, the standing one where none is given.
pub proof fn law_effect_override_modes(value: u32, count: u32, other: Seq<char>)
    ensures
        override_in(None, value, count) == Some(OverrideSpec::StaticRead { value }),
        override_in(Some("static"@), value, count) == Some(OverrideSpec::StaticRead { value }),
        override_in(Some("oneshot"@), value, count) == Some(
            OverrideSpec::OneShotRead { value, remaining: count },
        ),
        override_in(Some("mask"@), value, count) == Some(
            OverrideSpec::MaskedWriteIgnore { mask: value },
        ),
        other != "static"@ && other != "oneshot"@ && other != "mask"@ ==> override_in(
            Some(other),
            value,
            count,
        ) is None,
{
    reveal_strlit("static");
    reveal_strlit("oneshot");
    reveal_strlit("mask");
    assert("static"@.len() == 6 && "oneshot"@.len() == 7 && "mask"@.len() == 4);
}

/// A scheduled event waits last, has not fired, and has a number of its own; the
/// next one has the next.
pub proof fn law_scheduled_event_waits(
    s: ScenarioState,
    trigger: Trigger,
    effect: Effect,
    label: Option<String>,
    repeat: bool,
)
    requires
        s.next_id < u32::MAX,
    ensures
        ({
            let after = scheduled(s, trigger, effect, label, repeat);
            let e = after.events.last();
            &&& after.events.len() == s.events.len() + 1
            &&& after.events.drop_last() == s.events
            &&& e.id == s.next_id && e.trigger == trigger && e.effect == effect && e.repeat
                == repeat && !e.fired && e.seen == 0
            &&& after.next_id == s.next_id + 1
            &&& after.watchpoints == s.watchpoints && after.overrides == s.overrides
                && after.deferred == s.deferred && after.pause == s.pause
            &&& label matches Some(t) ==> after.labels.dom().contains(s.next_id)
                && after.labels[s.next_id] == t
        }),
{
    let e = ScheduledEvent { id: s.next_id, trigger, effect, repeat, fired: false, seen: 0 };
    assert(s.events.push(e).drop_last() =~= s.events);
}

/// A watchpoint is set as it was asked for, and its action is a pause unless an
/// effect is named.
pub proof fn law_watchpoint_is_set_as_asked(
    params: SetMmioWatchpointParams,
    effect: Option<Effect>,
    id: u32,
)
    ensures
        ({
            let asked = asked_watchpoint(params, effect, id);
            &&& asked matches Some(w) ==> {
                &&& w.id == id && w.address == params.address.0 && w.size == params.size
                &&& crate::mcp::events::watch_mode_in(params.mode@) == Some(w.mode)
                &&& params.action is None ==> w.action == MmioWatchAction::Pause
                &&& params.action matches Some(a) ==> {
                    &&& a@ == "pause"@ ==> w.action == MmioWatchAction::Pause
                    &&& a@ != "pause"@ ==> effect is Some && w.action == MmioWatchAction::Fire(
                        effect->0,
                    )
                }
                &&& params.condition is None ==> w.condition is None
                &&& params.condition matches Some(c) ==> w.condition == Some(
                    ValueCondition::MaskEqual { mask: c.mask.0, expect: c.expect.0 },
                )
            }
            &&& asked is None <==> crate::mcp::events::watch_mode_in(params.mode@) is None || (
            effect is None && params.action is Some && (params.action->0)@ != "pause"@)
        }),
{
}

/// A watchpoint that is set stands last under the next number; where there is
/// none to set, nothing changes.
pub proof fn law_set_watchpoint_stands(s: ScenarioState, w: MmioWatchpoint, label: Option<String>)
    requires
        s.next_id < u32::MAX,
    ensures
        watching(s, Some(w), label).watchpoints == s.watchpoints.push(w),
        watching(s, Some(w), label).next_id == s.next_id + 1,
        watching(s, Some(w), label).events == s.events,
        watching(s, None, label) == s,
{
}

/// A trigger is read from its kind, its address and its count; a count that is
/// missing is one.
pub proof fn law_triggers_by_kind(m: Seq<(Seq<char>, Seq<char>)>, address: u32, n: u64)
    requires
        crate::mcp::symbols::address_of_view(crate::mcp::json::member_view(m, "address"@)) == Some(
            address,
        ),
        crate::mcp::json::number_in(crate::mcp::json::member_view(m, "n"@)) == Some(n),
        crate::mcp::json::number_in(crate::mcp::json::member_view(m, "occurrence"@)) is None,
    ensures
        ({
            let kind = crate::mcp::json::text_in(crate::mcp::json::member_view(m, "type"@));
            let t = trigger_in(Ok(JsonView::Object(m)));
            &&& kind == Some("at_instruction"@) ==> t == Some(Trigger::AtInstruction { n })
            &&& kind == Some("on_mmio_read"@) ==> t == Some(
                Trigger::OnMmioRead { address, occurrence: 1 },
            )
            &&& kind == Some("on_mmio_write"@) ==> t == Some(
                Trigger::OnMmioWrite { address, occurrence: 1 },
            )
            &&& kind is None ==> t is None
        }),
{
    reveal_strlit("at_instruction");
    reveal_strlit("on_mmio_read");
    reveal_strlit("on_mmio_write");
    assert("at_instruction"@.len() == 14 && "on_mmio_read"@.len() == 12 && "on_mmio_write"@.len()
        == 13);
}

/// An effect is read from its kind, its address and its value.
pub proof fn law_effects_by_kind(m: Seq<(Seq<char>, Seq<char>)>, address: u32, value: u32)
    requires
        crate::mcp::symbols::address_of_view(crate::mcp::json::member_view(m, "address"@)) == Some(
            address,
        ),
        crate::mcp::symbols::address_of_view(crate::mcp::json::member_view(m, "value"@)) == Some(
            value,
        ),
        crate::mcp::json::text_in(crate::mcp::json::member_view(m, "mode"@)) is None,
    ensures
        ({
            let kind = crate::mcp::json::text_in(crate::mcp::json::member_view(m, "type"@));
            let e = effect_in(Ok(JsonView::Object(m)));
            &&& kind == Some("pause"@) ==> e == Some(Effect::Pause)
            &&& kind == Some("remove_override"@) ==> e == Some(Effect::RemoveOverride { address })
            &&& kind == Some("write_mmio"@) ==> e == Some(Effect::WriteMmio { address, value })
            &&& kind == Some("set_override"@) ==> e == Some(
                Effect::SetOverride { address, spec: OverrideSpec::StaticRead { value } },
            )
            &&& kind is None ==> e is None
        }),
{
    reveal_strlit("pause");
    reveal_strlit("remove_override");
    reveal_strlit("write_mmio");
    reveal_strlit("set_override");
    assert("pause"@.len() == 5 && "remove_override"@.len() == 15 && "write_mmio"@.len() == 10
        && "set_override"@.len() == 12);
}

} // verus!
