use arc700::soc::efuse_udr::{
    EfuseUdr, REG_I2C_UDR_CLK_RESET, REG_I2C_UDR_SCL, REG_I2C_UDR_SDA,
};

#[test]
fn sda_high_when_not_driven_low() {
    let mut e = EfuseUdr::new();
    e.write_word(REG_I2C_UDR_SDA, 0x0000_0000).unwrap();
    assert_eq!(e.read_word(REG_I2C_UDR_SDA).unwrap() & 0x8000_0000, 0x8000_0000);
}

#[test]
fn sda_low_when_bit4_set() {
    let mut e = EfuseUdr::new();
    e.write_word(REG_I2C_UDR_SDA, 0x0000_0010).unwrap();
    assert_eq!(e.read_word(REG_I2C_UDR_SDA).unwrap() & 0x8000_0000, 0);
}

#[test]
fn scl_always_high_bit() {
    let mut e = EfuseUdr::new();
    assert_eq!(e.read_word(REG_I2C_UDR_SCL).unwrap() & 0x8000_0000, 0x8000_0000);
}

#[test]
fn clock_toggles_count_scl_edges() {
    let mut e = EfuseUdr::new();
    e.write_word(REG_I2C_UDR_SCL, 0).unwrap();
    e.write_word(REG_I2C_UDR_SCL, 1).unwrap();
    e.write_word(REG_I2C_UDR_SCL, 0).unwrap();
    e.write_word(REG_I2C_UDR_SCL, 1).unwrap();
    assert_eq!(e.clock_toggles, 2);
    e.write_word(REG_I2C_UDR_CLK_RESET, 0x8000).unwrap();
    assert_eq!(e.clock_toggles, 0);
}

#[test]
fn claims_only_three_addresses() {
    let e = EfuseUdr::new();
    assert!(e.claims(REG_I2C_UDR_CLK_RESET));
    assert!(e.claims(REG_I2C_UDR_SDA));
    assert!(e.claims(REG_I2C_UDR_SCL));
    assert!(!e.claims(0x0100_0044));
    assert!(!e.claims(0x0100_0050));
}
