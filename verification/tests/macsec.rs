use arc700::soc::macsec::Macsec;
use arc700::soc::peripheral::{MacsecEvent, PeripheralEvent};

#[test]
fn sa_config_register_is_plain_backing_store() {
    let mut m = Macsec::new();
    m.write_word(0x0100_2480, 0x8000_00AA).unwrap();
    assert_eq!(m.read_word(0x0100_2480).unwrap(), 0x8000_00AA);
    assert_eq!(m.read_word(0x0100_2480).unwrap(), 0x8000_00AA);
}

#[test]
fn mdio_command_register_clears_bit31_on_read() {
    let mut m = Macsec::new();
    m.write_word(0x0100_240C, 0x8000_1234).unwrap();
    assert_eq!(m.read_word(0x0100_240C).unwrap(), 0x8000_1234);
    assert_eq!(m.read_word(0x0100_240C).unwrap(), 0x0000_1234);
    m.write_word(0x0100_280C, 0x8000_5678).unwrap();
    assert_eq!(m.read_word(0x0100_280C).unwrap(), 0x8000_5678);
    assert_eq!(m.read_word(0x0100_280C).unwrap(), 0x0000_5678);
}

#[test]
fn key_tail_range_roundtrips() {
    let mut m = Macsec::new();
    m.write_word(0x0100_3520, 0xDEAD_BEEF).unwrap();
    assert_eq!(m.read_word(0x0100_3520).unwrap(), 0xDEAD_BEEF);
}

#[test]
fn warm_seed_loads_macsec_init_values() {
    let mut m = Macsec::new();
    m.reset_warm();
    assert_eq!(m.read_word(0x0100_2400).unwrap() & 0xFF, 0x13);
    assert_eq!(m.read_word(0x0100_2800).unwrap() & 0xFF, 0x13);
    assert_eq!(m.read_word(0x0100_2D18).unwrap(), 0x0813_0E04);
}

#[test]
fn claims_respects_bounds() {
    let m = Macsec::new();
    assert!(m.claims(0x0100_2400));
    assert!(m.claims(0x0100_2D3C));
    assert!(!m.claims(0x0100_2D40));
    assert!(m.claims(0x0100_3500));
    assert!(!m.claims(0x0100_3540));
    assert!(!m.claims(0x0100_23FC));
}

#[test]
fn pn_overflow_event_sets_mask() {
    let mut m = Macsec::new();
    m.inject_event(&PeripheralEvent::Macsec(MacsecEvent::InjectPnOverflow(3)))
        .unwrap();
    assert_eq!(m.pn_overflow_mask, 1 << 3);
    m.inject_event(&PeripheralEvent::Macsec(MacsecEvent::ResetSaTable))
        .unwrap();
    assert_eq!(m.pn_overflow_mask, 0);
}
