use arc700::soc::dma::DmaChannelController;

#[test]
fn queue_drain_bit8_cycles() {
    let mut d = DmaChannelController::new();
    let addr = 0x0100_203C;
    assert_eq!(d.read_word(addr).unwrap() & 0x100, 0x100);
    d.write_word(addr, 0x100).unwrap();
    assert_eq!(d.read_word(addr).unwrap() & 0x100, 0);
    d.tick(64);
    assert_eq!(d.read_word(addr).unwrap() & 0x100, 0x100);
}

#[test]
fn command_bits_autoclear_on_read() {
    let mut d = DmaChannelController::new();
    d.write_word(0x0100_2034, 0x8000_0042).unwrap();
    assert_eq!(d.read_word(0x0100_2034).unwrap(), 0x8000_0042);
    assert_eq!(d.read_word(0x0100_2034).unwrap(), 0x0000_0042);
}

#[test]
fn macsec_carveouts_excluded_from_claim() {
    let d = DmaChannelController::new();
    assert!(d.claims(0x0100_2000));
    assert!(d.claims(0x0100_23FC));
    assert!(!d.claims(0x0100_2400));
    assert!(!d.claims(0x0100_2D00));
    assert!(d.claims(0x0100_2D40));
    assert!(!d.claims(0x0100_3500));
    assert!(d.claims(0x0100_3540));
    assert!(!d.claims(0x0100_3604));
    assert!(!d.claims(0x0100_3610));
    assert!(d.claims(0x0100_3614));
    assert!(d.claims(0x0100_3E3C));
    assert!(!d.claims(0x0100_4000));
}
