//! The on-chip peripherals and the bank that routes to them.

pub mod access_log;
pub mod alarm;
pub mod alarm_events;
pub mod analysis;
pub mod bank;
pub mod boot_rom;
pub mod bsc_i2c;
pub mod default_store;
pub mod devices;
pub mod dma;
pub mod efuse_udr;
pub mod epon_mac;
pub mod fatal_filter;
pub mod lane_bus;
pub mod lue;
pub mod macsec;
pub mod mmio;
pub mod mmio_blocks;
pub mod mmio_init;
pub mod mpcp;
pub mod nco;
pub mod olt;
pub mod peripheral;
pub mod scenario;
pub mod sfp_eeprom;
pub mod uart;
pub mod window;
