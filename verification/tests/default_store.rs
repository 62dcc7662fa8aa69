use arc700::soc::default_store::DefaultRegisterStore;
use arc700::soc::peripheral::AddressRange;

#[test]
fn store_roundtrip_word() {
    let mut s = DefaultRegisterStore::new(AddressRange::new(0x1000_0000, 0x1000_0100));
    s.write_word(0x1000_0004, 0xDEADBEEF).unwrap();
    assert_eq!(s.read_word(0x1000_0004).unwrap(), 0xDEADBEEF);
}

#[test]
fn store_no_autoclear_of_high_bits() {
    let mut s = DefaultRegisterStore::new(AddressRange::new(0x1000_0000, 0x1000_0100));
    s.write_word(0x1000_0000, 0xF800_0042).unwrap();
    assert_eq!(s.read_word(0x1000_0000).unwrap(), 0xF800_0042);
    assert_eq!(s.read_word(0x1000_0000).unwrap(), 0xF800_0042);
}

#[test]
fn store_byte_and_half() {
    let mut s = DefaultRegisterStore::new(AddressRange::new(0x1000_0000, 0x1000_0100));
    s.write_word(0x1000_0008, 0x11223344).unwrap();
    assert_eq!(s.read_byte(0x1000_0008).unwrap(), 0x11);
    assert_eq!(s.read_byte(0x1000_0009).unwrap(), 0x22);
    assert_eq!(s.read_half(0x1000_000A).unwrap(), 0x3344);
}
