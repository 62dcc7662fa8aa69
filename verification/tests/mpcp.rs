use arc700::soc::mpcp::Mpcp;

#[test]
fn claims_cover_the_four_regions() {
    let m = Mpcp::new();
    assert!(m.claims(0x0100_0120));
    assert!(m.claims(0x0100_013C));
    assert!(!m.claims(0x0100_0140));

    assert!(m.claims(0x0100_0320));
    assert!(m.claims(0x0100_0324));
    assert!(!m.claims(0x0100_0328));

    assert!(m.claims(0x0100_1180));
    assert!(m.claims(0x0100_11BC));
    assert!(!m.claims(0x0100_11C0));

    assert!(m.claims(0x0100_1268));
    assert!(m.claims(0x0100_138C));
    assert!(!m.claims(0x0100_1390));
}

#[test]
fn round_trip_store() {
    let mut m = Mpcp::new();
    m.write_word(0x0100_1180, 0x8000_0000).unwrap();
    assert_eq!(m.read_word(0x0100_1180).unwrap(), 0x8000_0000);
    m.write_word(0x0100_12BC, 0x0000_0003).unwrap();
    assert_eq!(m.read_word(0x0100_12BC).unwrap(), 0x0000_0003);
}

#[test]
fn warm_snapshot_seeds_from_mmio_init() {
    let mut m = Mpcp::new();
    m.reset_warm();
    assert_eq!(m.read_word(0x0100_1180).unwrap(), 0x8000_0000);
    assert_eq!(m.read_word(0x0100_12BC).unwrap(), 0x0000_0003);
    assert_eq!(m.read_word(0x0100_12C0).unwrap(), 0x0006_0000);
}

#[test]
fn the_selector_keeps_two_tables_apart_at_one_offset() {
    let mut m = Mpcp::new();

    let (mac_lo, mac_hi) = (0x0203_0405, 0x0000_0201);

    m.write_word(0x0100_12BC, 0).unwrap();
    m.write_word(0x0100_12C0, mac_lo).unwrap();
    m.write_word(0x0100_12C4, mac_hi).unwrap();

    m.write_word(0x0100_12BC, 3).unwrap();
    m.write_word(0x0100_12C0, 0x0006_0000).unwrap();
    assert_eq!(m.read_word(0x0100_12C0).unwrap(), 0x0006_0000);

    m.write_word(0x0100_12BC, 0).unwrap();
    assert_eq!(m.read_word(0x0100_12C0).unwrap(), mac_lo);
    assert_eq!(m.read_word(0x0100_12C4).unwrap(), mac_hi);
}

#[test]
fn the_selector_word_itself_is_not_banked() {
    let mut m = Mpcp::new();
    m.write_word(0x0100_12BC, 1).unwrap();
    m.write_word(0x0100_1284, 0xDEAD_BEEF).unwrap();
    m.write_word(0x0100_12BC, 0).unwrap();
    assert_eq!(m.read_word(0x0100_12BC).unwrap(), 0);
    assert_eq!(m.read_word(0x0100_1284).unwrap(), 0xDEAD_BEEF);
}

#[test]
fn claims_does_not_overlap_other_peripherals() {
    let m = Mpcp::new();
    assert!(!m.claims(0x0100_0000));
    assert!(!m.claims(0x0100_0030));
    assert!(!m.claims(0x0100_0180));
    assert!(!m.claims(0x0100_01C0));
    assert!(!m.claims(0x0100_0200));
    assert!(!m.claims(0x0100_2400));
    assert!(!m.claims(0x0100_1404));
}
