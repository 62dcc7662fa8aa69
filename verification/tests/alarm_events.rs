use arc700::soc::alarm_events::{AlarmEvents, FORCED_OPCODE_CAPACITY};
use arc700::soc::peripheral::{AlarmEvent, PeripheralEvent};

#[test]
fn force_clear_roundtrip() {
    let mut a = AlarmEvents::new();
    a.force_pending(28);
    a.force_pending(131);
    a.force_pending(28);
    assert_eq!(a.forced_opcodes(), &[28u16, 131u16]);
    a.clear_pending(28);
    assert_eq!(a.forced_opcodes(), &[131u16]);
    a.clear_all();
    assert!(a.forced_opcodes().is_empty());
}

#[test]
fn capacity_is_bounded() {
    let mut a = AlarmEvents::new();
    for i in 0..200u16 {
        a.force_pending(i);
    }
    assert_eq!(a.forced_opcodes().len(), FORCED_OPCODE_CAPACITY);
}

#[test]
fn claims_nothing() {
    let a = AlarmEvents::new();
    assert!(!a.claims(0x0100_0000));
    assert!(!a.claims(0x0000_0000));
}

#[test]
fn event_injection_dispatches() {
    let mut a = AlarmEvents::new();
    a.inject_event(&PeripheralEvent::Alarm(AlarmEvent::ForcePending(193)))
        .unwrap();
    a.inject_event(&PeripheralEvent::Alarm(AlarmEvent::ForcePending(199)))
        .unwrap();
    assert_eq!(a.forced_opcodes().len(), 2);
    a.inject_event(&PeripheralEvent::Alarm(AlarmEvent::ClearAll))
        .unwrap();
    assert!(a.forced_opcodes().is_empty());
}
