use arc700::soc::fatal_filter::{FatalFilter, REG_FILTER_FATAL};
use arc700::soc::peripheral::{FatalFilterEvent, PeripheralEvent};

#[test]
fn fatal_reads_zero_until_injected() {
    let mut f = FatalFilter::new();
    assert_eq!(f.read_word(REG_FILTER_FATAL).unwrap(), 0);
    f.inject_event(&PeripheralEvent::FatalFilter(FatalFilterEvent::InjectFatal(0x42)))
        .unwrap();
    assert_eq!(f.read_word(REG_FILTER_FATAL).unwrap(), 0x42);
}

#[test]
fn fatal_w1c_on_write() {
    let mut f = FatalFilter::new();
    f.inject_event(&PeripheralEvent::FatalFilter(FatalFilterEvent::InjectFatal(0xFF)))
        .unwrap();
    f.write_word(REG_FILTER_FATAL, 0x0F).unwrap();
    assert_eq!(f.read_word(REG_FILTER_FATAL).unwrap(), 0xF0);
}

#[test]
fn claims_covers_0x3600_to_0x3613() {
    let f = FatalFilter::new();
    assert!(f.claims(0x0100_3600));
    assert!(f.claims(0x0100_3604));
    assert!(f.claims(0x0100_3608));
    assert!(f.claims(0x0100_3610));
    assert!(!f.claims(0x0100_3614));
    assert!(!f.claims(0x0100_35FC));
}

#[test]
fn link_up_toggle() {
    let mut f = FatalFilter::new();
    f.inject_event(&PeripheralEvent::FatalFilter(FatalFilterEvent::SetLinkUp(0, true)))
        .unwrap();
    f.inject_event(&PeripheralEvent::FatalFilter(FatalFilterEvent::SetLinkUp(2, true)))
        .unwrap();
    assert_eq!(f.link_up_bitmap, 0b101);
    f.inject_event(&PeripheralEvent::FatalFilter(FatalFilterEvent::SetLinkUp(0, false)))
        .unwrap();
    assert_eq!(f.link_up_bitmap, 0b100);
}
