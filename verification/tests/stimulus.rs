use arc700::mcp::bus::{list_mmio_overrides, try_read_mmio, try_write_mmio};
use arc700::mcp::handler::{
    CancelEventParams, HexU32, ReadMmioParams, RemoveMmioWatchpointParams, ScheduleEventParams,
    SetMmioWatchpointParams, WatchpointConditionParams, WriteMmioParams,
};
use arc700::mcp::json::JsonNode;
use arc700::mcp::scenario::{
    cancel_event, clear_scenario, parse_effect, parse_trigger, remove_mmio_watchpoint, schedule,
    schedule_event, set_mmio_watchpoint, watch,
};
use arc700::peripherals::pbc::{REG_SPI_CONTROL, REG_SPI_STATUS};
use arc700::soc::bank::{BootMode, PeripheralBank};
use arc700::soc::devices::PBC_BASE;
use arc700::soc::scenario::{
    Effect, MmioWatchAction, MmioWatchMode, OverrideSpec, ScenarioEngine, Trigger, ValueCondition,
};

const PLAIN: u32 = 0x0100_0020;
const OTHER: u32 = 0x0100_0028;

fn bank() -> PeripheralBank {
    PeripheralBank::new(BootMode::Cold)
}

fn object(members: &[(&str, &str)]) -> Result<JsonNode, String> {
    Ok(JsonNode::Object(members.iter().map(|m| (m.0.to_string(), m.1.to_string())).collect()))
}

#[test]
fn an_event_fires_on_its_occurrence_and_only_once() {
    let mut b = bank();
    let write = Effect::WriteMmio { address: OTHER, value: 7 };
    b.scenario.schedule_ex(Trigger::OnMmioRead { address: PLAIN, occurrence: 2 }, write, None, false);
    b.read_word(PLAIN).unwrap();
    b.write_word(PLAIN, 0).unwrap();
    assert_eq!(b.peek_word(OTHER), Ok(0));
    b.read_word(PLAIN).unwrap();
    assert_eq!(b.peek_word(OTHER), Ok(7));
    assert!(b.scenario.events[0].fired);
    b.write_word(OTHER, 1).unwrap();
    b.read_word(PLAIN).unwrap();
    b.read_word(PLAIN).unwrap();
    assert_eq!(b.peek_word(OTHER), Ok(1));
}

#[test]
fn a_repeating_event_fires_on_every_occurrence() {
    let mut b = bank();
    let trigger = Trigger::OnMmioWrite { address: PLAIN, occurrence: 2 };
    b.scenario.schedule_ex(trigger, Effect::Pause, None, true);
    let mut fired = Vec::new();
    for _ in 0..4 {
        b.write_word(PLAIN, 1).unwrap();
        fired.push(b.scenario_pause_requested());
    }
    assert_eq!(fired, vec![false, true, false, true]);
}

#[test]
fn an_event_waits_for_its_instruction() {
    let mut b = bank();
    let set = Effect::SetOverride { address: PLAIN, spec: OverrideSpec::StaticRead { value: 3 } };
    b.scenario.schedule_ex(Trigger::AtInstruction { n: 100 }, set, None, false);
    b.tick(64);
    assert_eq!(b.read_word(PLAIN), Ok(0));
    b.tick(64);
    assert_eq!(b.read_word(PLAIN), Ok(3));
    let remove = Effect::RemoveOverride { address: PLAIN };
    b.scenario.schedule_ex(Trigger::AtInstruction { n: 192 }, remove, None, false);
    b.tick(64);
    assert_eq!(b.read_word(PLAIN), Ok(0));
}

#[test]
fn watchpoints_look_at_direction_range_and_value() {
    let mut b = bank();
    b.scenario.add_watchpoint(
        PLAIN,
        4,
        MmioWatchMode::Write,
        MmioWatchAction::Pause,
        None,
        Some(ValueCondition::MaskEqual { mask: 0xF, expect: 5 }),
    );
    b.read_word(PLAIN).unwrap();
    b.write_word(PLAIN, 4).unwrap();
    b.write_word(PLAIN + 4, 5).unwrap();
    assert!(!b.scenario_pause_requested());
    b.write_word(PLAIN, 0x15).unwrap();
    assert!(b.scenario_pause_requested());
    assert!(!b.scenario_pause_requested());
}

#[test]
fn a_read_that_failed_is_noticed_as_a_zero() {
    let mut b = bank();
    b.unmapped_exception = true;
    b.scenario.add_watchpoint(
        0x0200_0000,
        4,
        MmioWatchMode::ReadWrite,
        MmioWatchAction::Fire(Effect::WriteMmio { address: PLAIN, value: 9 }),
        None,
        Some(ValueCondition::MaskEqual { mask: 0xFFFF_FFFF, expect: 0 }),
    );
    assert!(b.read_word(0x0200_0000).is_err());
    assert_eq!(b.peek_word(PLAIN), Ok(9));
}

#[test]
fn triggers_and_effects_are_read_from_json() {
    assert_eq!(
        parse_trigger(object(&[("type", "\"at_instruction\""), ("n", "1000")])),
        Some(Trigger::AtInstruction { n: 1000 })
    );
    assert_eq!(
        parse_trigger(object(&[
            ("type", "\"on_mmio_read\""),
            ("address", "\"0x0100240C\""),
            ("occurrence", "3")
        ])),
        Some(Trigger::OnMmioRead { address: 0x0100_240C, occurrence: 3 })
    );
    assert_eq!(
        parse_trigger(object(&[("type", "\"on_mmio_write\""), ("address", "16")])),
        Some(Trigger::OnMmioWrite { address: 16, occurrence: 1 })
    );
    assert_eq!(parse_trigger(object(&[("type", "\"on_mmio_write\"")])), None);
    assert_eq!(parse_trigger(object(&[("type", "\"at_instruction\"")])), None);
    assert_eq!(parse_trigger(object(&[("n", "1")])), None);
    assert_eq!(parse_trigger(Ok(JsonNode::Null)), None);
    assert_eq!(parse_trigger(Err("no".into())), None);
    let set = |mode: &str| {
        parse_effect(object(&[
            ("type", "\"set_override\""),
            ("address", "\"0x10\""),
            ("value", "\"0x20\""),
            ("mode", mode),
            ("count", "2"),
        ]))
    };
    let spec = |spec| Some(Effect::SetOverride { address: 0x10, spec });
    assert_eq!(set("\"static\""), spec(OverrideSpec::StaticRead { value: 0x20 }));
    assert_eq!(set("null"), spec(OverrideSpec::StaticRead { value: 0x20 }));
    assert_eq!(set("\"oneshot\""), spec(OverrideSpec::OneShotRead { value: 0x20, remaining: 2 }));
    assert_eq!(set("\"mask\""), spec(OverrideSpec::MaskedWriteIgnore { mask: 0x20 }));
    assert_eq!(set("\"other\""), None);
    assert_eq!(
        parse_effect(object(&[("type", "\"remove_override\""), ("address", "4")])),
        Some(Effect::RemoveOverride { address: 4 })
    );
    assert_eq!(
        parse_effect(object(&[("type", "\"write_mmio\""), ("address", "4"), ("value", "5")])),
        Some(Effect::WriteMmio { address: 4, value: 5 })
    );
    assert_eq!(parse_effect(object(&[("type", "\"write_mmio\""), ("address", "4")])), None);
    assert_eq!(parse_effect(object(&[("type", "\"pause\"")])), Some(Effect::Pause));
    assert_eq!(parse_effect(object(&[])), None);
}

#[test]
fn events_are_scheduled_and_cancelled() {
    let mut engine = ScenarioEngine::new();
    let asked = ScheduleEventParams {
        trigger: "{\"type\": \"on_mmio_read\", \"address\": \"0x10\"}".into(),
        effect: "{\"type\": \"pause\"}".into(),
        label: Some("here".into()),
        repeat: true,
    };
    let r = schedule_event(&mut engine, asked.clone());
    assert_eq!((r.ok, r.id), (true, Some(1)));
    assert_eq!(engine.events[0].trigger, Trigger::OnMmioRead { address: 0x10, occurrence: 1 });
    assert!(engine.events[0].repeat && engine.events[0].effect == Effect::Pause);
    assert_eq!(engine.label_of(1).as_deref(), Some("here"));
    let r = schedule_event(&mut engine, ScheduleEventParams { effect: "{".into(), ..asked });
    assert_eq!((r.ok, r.id, engine.events.len()), (false, None, 1));
    assert!(!schedule(&mut engine, None, Some(Effect::Pause), None, false).ok);
    let r = schedule(&mut engine, Some(Trigger::AtInstruction { n: 1 }), Some(Effect::Pause), None, false);
    assert_eq!(r.id, Some(2));
    assert!(cancel_event(&mut engine, &CancelEventParams { id: 1 }).ok);
    assert!(!cancel_event(&mut engine, &CancelEventParams { id: 1 }).ok);
    assert_eq!(engine.events.len(), 1);
    assert!(clear_scenario(&mut engine).ok);
    assert!(engine.events.is_empty() && engine.watchpoints.is_empty());
}

fn bus_watch(mode: &str, action: Option<&str>) -> SetMmioWatchpointParams {
    SetMmioWatchpointParams {
        address: HexU32(PLAIN),
        size: 8,
        mode: mode.into(),
        action: action.map(|s| s.to_string()),
        label: Some("l".into()),
        condition: Some(WatchpointConditionParams { mask: HexU32(3), expect: HexU32(1) }),
    }
}

#[test]
fn bus_watchpoints_pause_unless_they_fire() {
    let mut engine = ScenarioEngine::new();
    let r = set_mmio_watchpoint(&mut engine, bus_watch("w", None));
    assert_eq!((r.ok, r.id), (true, Some(1)));
    let w = engine.watchpoints[0];
    assert_eq!((w.address, w.size, w.mode, w.action), (PLAIN, 8, MmioWatchMode::Write, MmioWatchAction::Pause));
    assert_eq!(w.condition, Some(ValueCondition::MaskEqual { mask: 3, expect: 1 }));
    assert_eq!(engine.label_of(1).as_deref(), Some("l"));
    assert!(set_mmio_watchpoint(&mut engine, bus_watch("r", Some("pause"))).ok);
    let fire = "{\"type\": \"write_mmio\", \"address\": 4, \"value\": 5}";
    assert!(set_mmio_watchpoint(&mut engine, bus_watch("rw", Some(fire))).ok);
    assert_eq!(
        engine.watchpoints[2].action,
        MmioWatchAction::Fire(Effect::WriteMmio { address: 4, value: 5 })
    );
    assert!(!set_mmio_watchpoint(&mut engine, bus_watch("r", Some("{}"))).ok);
    assert!(!watch(&mut engine, bus_watch("x", None), Some(Effect::Pause)).ok);
    assert!(!watch(&mut engine, bus_watch("r", Some("{}")), None).ok);
    assert_eq!(engine.watchpoints.len(), 3);
    assert!(remove_mmio_watchpoint(&mut engine, &RemoveMmioWatchpointParams { id: 2 }).ok);
    assert!(!remove_mmio_watchpoint(&mut engine, &RemoveMmioWatchpointParams { id: 2 }).ok);
    assert_eq!(engine.watchpoints.len(), 2);
}

#[test]
fn accesses_that_cannot_go_through_are_refused() {
    let mut b = bank();
    let write = |address: u32, value: u32| WriteMmioParams {
        address: HexU32(address),
        value: HexU32(value),
        width: None,
    };
    let read = ReadMmioParams { address: HexU32(PLAIN), width: None };
    assert!(try_write_mmio(&mut b, &write(PLAIN, 5)).unwrap().ok);
    assert_eq!(try_read_mmio(&mut b, &read).unwrap().value.0, 5);
    let start = PBC_BASE + REG_SPI_STATUS;
    assert!(try_write_mmio(&mut b, &write(start, 0x91)).is_none());
    assert!(try_write_mmio(&mut b, &write(start, 0x81)).is_some());
    assert_eq!(b.peek_word(PLAIN), Ok(5));
}

#[test]
fn an_access_goes_through_unless_it_sets_off_a_write_that_cannot() {
    let mut b = bank();
    let read = ReadMmioParams { address: HexU32(PLAIN), width: None };
    let on_read = |occurrence: u32| Trigger::OnMmioRead { address: PLAIN, occurrence };
    let control = PBC_BASE + REG_SPI_CONTROL;
    let start = PBC_BASE + REG_SPI_STATUS;
    let effect = |address: u32, value: u32| Effect::WriteMmio { address, value };
    b.scenario.schedule_ex(on_read(1), effect(control, 7), None, false);
    b.scenario.schedule_ex(on_read(2), effect(OTHER, 8), None, false);
    b.scenario.schedule_ex(on_read(2), effect(start, 0x91), None, false);
    b.scenario.schedule_ex(on_read(2), effect(PLAIN, 9), None, false);
    assert!(try_read_mmio(&mut b, &read).is_some());
    assert_eq!(b.peek_word(control), Ok(7));
    assert!(try_read_mmio(&mut b, &read).is_none());
    assert_eq!((b.peek_word(OTHER), b.peek_word(PLAIN)), (Ok(8), Ok(0)));
    assert!(try_read_mmio(&mut b, &read).is_some());
    let half = ReadMmioParams { address: HexU32(OTHER + 2), width: Some("half".into()) };
    assert_eq!(try_read_mmio(&mut b, &half).unwrap().value.0, 8);
}

#[test]
fn labels_stay_with_what_they_name() {
    let mut b = bank();
    b.scenario.overrides.set(PLAIN, OverrideSpec::OneShotRead { value: 1, remaining: 2 }, Some("once".into()));
    b.scenario.overrides.set(OTHER, OverrideSpec::StaticRead { value: 2 }, Some("always".into()));
    let event = b.scenario.schedule_ex(
        Trigger::AtInstruction { n: 1 },
        Effect::Pause,
        Some("event".into()),
        false,
    );
    b.read_word(PLAIN).unwrap();
    b.read_word(OTHER).unwrap();
    b.tick(64);
    let saved = b.capture_for_snapshot();
    let mut copy = bank();
    copy.restore_from_snapshot(saved);
    for bank in [&mut b, &mut copy] {
        let shown = list_mmio_overrides(&bank.scenario.overrides);
        let labels: Vec<_> = shown.overrides.iter().map(|e| e.label.clone().unwrap()).collect();
        assert_eq!(labels, ["once", "always"]);
        assert_eq!(bank.scenario.label_of(event).as_deref(), Some("event"));
        bank.read_word(PLAIN).unwrap();
        assert_eq!(list_mmio_overrides(&bank.scenario.overrides).count, 1);
        assert!(bank.scenario.overrides.labels.get(&PLAIN).is_none());
        assert!(bank.scenario.cancel(event));
        assert_eq!(bank.scenario.label_of(event), None);
    }
}
