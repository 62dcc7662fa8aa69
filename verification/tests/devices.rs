use std::collections::HashMap;

use arc700::peripherals::pbc::{
    PeripheralBusController, DMA_DCCM_BASE, REG_DMA_ADDR, REG_DMA_CTRL, REG_DMA_DATA_ADDR,
    REG_SPI_CONFIG, REG_SPI_FIFO_DATA, REG_SPI_READ_DATA, REG_SPI_STATUS,
};
use arc700::peripherals::spi_flash::{SpiFlash, CMD_CE, CMD_PP, CMD_RDID, CMD_RDSR, CMD_SE, CMD_WREN};
use arc700::peripherals::uart::{SimpleUart, UART_BAUD_LO, UART_CONTROL, UART_STATUS, UART_TX_DATA};
use arc700::peripherals::MmioController as BootController;
use arc700::soc::access_log::AccessLog;
use arc700::soc::alarm_events::AlarmEvents;
use arc700::soc::bsc_i2c::BscI2c;
use arc700::soc::default_store::DefaultRegisterStore;
use arc700::soc::dma::DmaChannelController;
use arc700::soc::efuse_udr::EfuseUdr;
use arc700::soc::epon_mac::EponMac;
use arc700::soc::fatal_filter::FatalFilter;
use arc700::soc::lane_bus::LaneBus;
use arc700::soc::macsec::Macsec;
use arc700::soc::mmio::MmioController;
use arc700::soc::mpcp::Mpcp;
use arc700::soc::olt::OltLink;
use arc700::soc::peripheral::{
    merge_byte, merge_half, select_byte, select_half, AddressRange, PeripheralError,
    PeripheralEvent, PeripheralSnapshot, UartEvent,
};
use arc700::soc::scenario::{OverrideSpec, OverrideTable};
use arc700::soc::sfp_eeprom::SfpEeprom;
use arc700::soc::uart::{
    Uart, STATUS_RX_READY, STATUS_TX_DONE, UART_BAUD_HI, UART_DATA, UART_RANGE_START,
    UART_REG_OFFSET, UART_STATUS as STATUS,
};
use arc700::soc::window::RegisterWindow;

#[test]
fn lanes_of_a_word_are_big_endian() {
    assert_eq!(select_byte(0x1122_3344, 0), 0x11);
    assert_eq!(select_byte(0x1122_3344, 3), 0x44);
    assert_eq!(select_half(0x1122_3344, 2), 0x3344);
    assert_eq!(merge_byte(0x1122_3344, 1, 0xAA), 0x11AA_3344);
    assert_eq!(merge_half(0x1122_3344, 0, 0xBBCC), 0xBBCC_3344);
    assert_eq!(select_byte(merge_byte(0, 2, 0x5A), 2), 0x5A);
}

#[test]
fn a_window_reads_back_its_words() {
    let mut w = RegisterWindow::new(vec![AddressRange::new(0x100, 0x110)]);
    assert!(w.claims(0x10F) && !w.claims(0x110));
    assert_eq!(w.read(0x104), 0);
    w.write(0x104, 7);
    assert_eq!((w.read(0x106), w.read(0x108)), (7, 0));
    w.reset();
    assert_eq!(w.read(0x104), 0);
}

#[test]
fn a_one_shot_override_expires() {
    let mut t = OverrideTable::new();
    t.set(4, OverrideSpec::OneShotRead { value: 9, remaining: 2 }, None);
    assert_eq!(t.peek_read(4), Some(9));
    assert_eq!((t.try_read(4), t.try_read(4), t.try_read(4)), (Some(9), Some(9), None));
    t.set(4, OverrideSpec::OneShotRead { value: 9, remaining: 0 }, None);
    assert_eq!(t.try_read(4), None);
    t.set(4, OverrideSpec::StaticRead { value: 3 }, None);
    assert_eq!((t.try_read(4), t.try_read(4)), (Some(3), Some(3)));
    t.set(4, OverrideSpec::MaskedWriteIgnore { mask: 0x0F }, None);
    assert_eq!((t.try_read(4), t.filter_write(4, 0xFF)), (None, Some(0xF0)));
    assert_eq!(t.filter_write(8, 1), None);
    t.clear();
    assert!(!t.remove(4));
}

#[test]
fn received_bytes_keep_their_order() {
    let base = UART_RANGE_START + UART_REG_OFFSET;
    let mut u = Uart::new();
    assert_eq!(u.read_word(base + STATUS).unwrap(), STATUS_TX_DONE);
    u.push_rx_byte(1);
    u.push_rx_byte(2);
    assert_eq!(u.peek_word(base + UART_DATA).unwrap(), 1);
    assert_eq!(u.read_word(base + STATUS).unwrap(), STATUS_RX_READY);
    assert_eq!(u.read_byte(base + UART_DATA).unwrap(), 1);
    assert_eq!(u.read_word(base + UART_DATA).unwrap(), 2);
    assert_eq!(u.read_word(base + UART_DATA).unwrap(), 0);
    u.write_word(base + UART_BAUD_HI, 3).unwrap();
    assert_eq!(u.read_word(base + UART_BAUD_HI).unwrap(), 3);
    u.write_byte(base + UART_DATA, 0x41).unwrap();
    u.reset();
    assert!(u.tx_log_bytes().is_empty());
}

#[test]
fn the_boot_uart_hands_bytes_to_its_caller() {
    let mut u = SimpleUart::new();
    assert_eq!(u.write_word(UART_TX_DATA, 0x141).unwrap(), Some(0x41));
    assert_eq!(u.write_byte(UART_CONTROL, 9).unwrap(), None);
    assert_eq!(u.read_word(UART_CONTROL).unwrap(), 9);
    assert_eq!(u.write_word(UART_BAUD_LO, 0x1234).unwrap(), None);
    assert_eq!(u.read_byte(UART_BAUD_LO).unwrap(), 0x34);
    assert_eq!(u.read_word(UART_STATUS).unwrap(), 0x80);
    u.feed_rx(7);
    assert_eq!(u.read_word(UART_STATUS).unwrap(), 0xA0);
    assert_eq!(u.read_word(0x40).unwrap(), 0);
}

#[test]
fn a_transfer_hands_over_flash_bytes() {
    let mut pbc = PeripheralBusController::new();
    pbc.flash.dma_write(0x100, &[1, 2, 3, 4]);
    pbc.write_word(REG_DMA_ADDR, 0x100);
    pbc.write_word(REG_DMA_DATA_ADDR, DMA_DCCM_BASE + 0x40);
    pbc.write_word(REG_DMA_CTRL, (4 << 4) | 1);
    assert_eq!(pbc.read_word(REG_DMA_CTRL), 0);
    let done = pbc.take_pending_dma();
    assert_eq!(done.len(), 1);
    assert_eq!(done[0].dccm_addr, 0x40);
    assert_eq!(done[0].data, pbc.flash.dma_read(0x100, 4));
    assert!(pbc.take_pending_dma().is_empty());
    pbc.write_word(REG_DMA_DATA_ADDR, 0x8_0000);
    pbc.write_word(REG_DMA_CTRL, (4 << 4) | 1);
    assert!(pbc.take_pending_dma().is_empty());
}

#[test]
fn a_command_goes_through_the_fifo() {
    let mut pbc = PeripheralBusController::new();
    pbc.write_word(REG_SPI_FIFO_DATA, CMD_RDID as u32);
    pbc.write_word(REG_SPI_STATUS, (3 << 8) | (1 << 4) | 1);
    assert_eq!(pbc.read_word(REG_SPI_READ_DATA), 0x0016_20C2);
    assert_eq!(pbc.read_word(REG_SPI_STATUS), 0);
    pbc.write_word(REG_SPI_CONFIG, 5);
    assert_eq!(pbc.peek_word(REG_SPI_CONFIG), 5);
    pbc.reset();
    assert_eq!((pbc.peek_word(REG_SPI_CONFIG), pbc.peek_word(REG_SPI_READ_DATA)), (0, 0));
}

#[test]
fn programming_only_clears_bits_and_needs_the_latch() {
    let mut f = SpiFlash::new();
    f.execute_fifo_command(&[CMD_PP, 0, 0, 0, 0x0F], 0);
    assert_eq!(f.dma_read(0, 1), vec![0xFF]);
    f.execute_fifo_command(&[CMD_WREN], 0);
    f.execute_fifo_command(&[CMD_PP, 0, 0, 0, 0x0F], 0);
    assert_eq!(f.execute_fifo_command(&[CMD_RDSR], 1), vec![0]);
    f.execute_fifo_command(&[CMD_WREN], 0);
    f.execute_fifo_command(&[CMD_PP, 0, 0, 0, 0xF1], 0);
    assert_eq!(f.dma_read(0, 1), vec![0x01]);
    f.execute_fifo_command(&[CMD_WREN], 0);
    f.execute_fifo_command(&[CMD_SE, 0, 0, 0x10], 0);
    assert_eq!(f.dma_read(0, 1), vec![0xFF]);
    f.execute_fifo_command(&[CMD_WREN], 0);
    f.execute_fifo_command(&[CMD_PP, 0x3F, 0xFF, 0xFF, 0x00, 0x00], 0);
    assert_eq!(f.dma_read(0x3F_FFFF, 2), vec![0, 0]);
    f.execute_fifo_command(&[CMD_WREN], 0);
    f.execute_fifo_command(&[CMD_CE], 0);
    assert_eq!(f.dma_read(0x3F_FFFF, 2), vec![0xFF, 0xFF]);
}

#[test]
fn the_residual_store_counts_without_changing_words() {
    let mut s = DefaultRegisterStore::new(AddressRange::new(0x1000, 0x1010));
    s.trace = Some(HashMap::new());
    s.update_cpu_context(0x77, 5);
    s.write_half(0x1002, 0xBEEF).unwrap();
    s.write_byte(0x1000, 0x12).unwrap();
    assert_eq!(s.read_word(0x1000).unwrap(), 0x1200_BEEF);
    let e = s.trace.as_ref().unwrap()[&0x1000];
    assert_eq!((e.reads, e.writes, e.first_pc, e.first_insn), (1, 2, 0x77, 5));
    assert_eq!(e.access_widths, 0b111);
    s.reset();
    assert_eq!(s.word(0x1000), 0);
    s.load_init_slice(&[(4, 9), (0x10, 1)]);
    assert_eq!(s.word(0x1004), 9);
    assert!(s.contains(0x100C) && !s.contains(0x1010));
}

#[test]
fn a_ring_drops_its_oldest() {
    let mut log = AccessLog::new();
    log.mmio_history_max = 2;
    for v in 0..3 {
        log.record_history(4, v, "read", "word", "uart");
    }
    assert_eq!(log.mmio_history.iter().map(|e| e.value).collect::<Vec<_>>(), vec![1, 2]);
    log.mmio_history_max = 0;
    log.record_history(4, 9, "read", "word", "uart");
    assert_eq!(log.mmio_history.len(), 2);
    log.record_last_access(4, 1, "read");
    log.record_last_access(8, 2, "write");
    log.record_last_access(4, 3, "write");
    assert_eq!(log.last_access_of(4).unwrap().value, 3);
    assert_eq!(log.last_access.len(), 2);
    assert!(log.last_access_of(12).is_none());
}

#[test]
fn frame_words_come_out_in_order() {
    let mut link = OltLink::new();
    link.mailbox = AddressRange::new(0x100, 0x200);
    link.data_addr = Some(0x110);
    link.cmd_addr = Some(0x120);
    link.status = Some((0x130, 0xAB));
    link.fifo = vec![1, 2];
    assert_eq!(link.read_cmd_status(0x130), Some(0xAB));
    assert_eq!((link.read_data(0x110), link.read_data(0x110), link.read_data(0x110)), (Some(1), Some(2), None));
    assert!(link.frame_consumed);
    assert!(link.write_cmd(0x120, 5) && !link.write_cmd(0x124, 5));
    link.observe_write(0x150, 6);
    link.observe_write(0x250, 7);
    link.observe_write(0x0100_04D8, 8);
    link.observe_write(0x0100_052C, 9);
    assert_eq!((link.commands.clone(), link.observed.clone()), (vec![5], vec![(0x150, 6)]));
    assert_eq!(link.template, vec![(0x0100_04D8, 8), (0x0100_052C, 9)]);
    assert!(link.claims_mailbox(0x1FF) && !link.claims_mailbox(0x200));
}

#[test]
fn a_burst_stands_in_until_a_real_frame_was_seen() {
    let mut link = OltLink::new();
    link.handle_mpcp_burst_trigger();
    assert!(link.bursts.is_empty());
    link.link_up = true;
    link.mpcp_timestamp = 77;
    link.handle_mpcp_burst_trigger();
    assert_eq!((link.bursts.len(), link.bursts[0].timestamp), (1, 77));
    link.real_tx_seen = true;
    link.handle_mpcp_burst_trigger();
    assert_eq!(link.bursts.len(), 1);
    link.reset();
    assert!(link.bursts.is_empty() && !link.link_up);
}

#[test]
fn the_fatal_mask_does_not_show_in_the_status() {
    let mut m = Macsec::new();
    m.write_word(0x0100_2D00, 0xFFFF_FFFF).unwrap();
    m.write_word(0x0100_2480, 1).unwrap();
    assert_eq!(m.name(), "macsec");
    assert_eq!(m.address_ranges().len(), 2);
    m.reset_cold();
    assert_eq!(m.read_word(0x0100_2480).unwrap(), 0);
}

#[test]
fn an_event_of_another_peripheral_is_refused() {
    let stray = PeripheralEvent::Uart(UartEvent::ClearTxLog);
    let refused = Err(PeripheralError::UnsupportedEvent);
    assert_eq!(Macsec::new().inject_event(&stray), refused);
    assert_eq!(BscI2c::new().inject_event(&stray), refused);
    assert_eq!(DmaChannelController::new().inject_event(&stray), refused);
    assert_eq!(EfuseUdr::new().inject_event(&stray), refused);
    assert_eq!(FatalFilter::new().inject_event(&stray), refused);
    assert_eq!(EponMac::new().inject_event(&stray), refused);
    assert_eq!(AlarmEvents::new().inject_event(&stray), refused);
}

#[test]
fn snapshots_tell_their_peripheral() {
    assert!(matches!(AlarmEvents::new().snapshot(), PeripheralSnapshot::Alarm(_)));
    assert!(matches!(BscI2c::new().sfp_snapshot(), PeripheralSnapshot::Sfp(_)));
    assert!(matches!(Macsec::new().snapshot(), PeripheralSnapshot::Macsec(_)));
    assert!(matches!(DmaChannelController::new().snapshot(), PeripheralSnapshot::Dma(_)));
}

#[test]
fn the_module_behind_the_bus_holds_its_texts() {
    let mut sfp = SfpEeprom::new_default();
    assert_eq!(sfp.read_word(0, 0), 0x0001_0203);
    assert_eq!(sfp.read_word(0, 254), 0xFEFF_0001);
    assert_eq!(sfp.read_word(1, 0), 0xFFFE_FDFC);
    sfp.set_vendor_name(*b"ACME OPTICS     ");
    sfp.set_part_number(*b"PN-1            ");
    sfp.set_serial_number(*b"SN-2            ");
    assert_eq!(&sfp.vendor_name(), b"ACME OPTICS     ");
    assert_eq!(&sfp.part_number(), b"PN-1            ");
    assert_eq!(&sfp.serial_number(), b"SN-2            ");
    sfp.reset_to_snapshot();
    assert_eq!(sfp.vendor_name()[0], 20);
}

#[test]
fn command_bits_of_the_boot_registers_complete_at_once() {
    let mut c = BootController::new();
    c.write_word(0x0100_0100, 0xF800_0042).unwrap();
    assert_eq!(c.read_word(0x0100_0100).unwrap(), 0x42);
    assert_eq!(c.read_byte(0x0100_0103).unwrap(), 0x42);
    assert_eq!(c.read_word(0x0400_0000).unwrap(), 0);
}

#[test]
fn command_bits_are_read_once_and_unknown_registers_noticed_once() {
    let mut c = MmioController::new();
    let reg = 0x0100_3000;
    c.write_word(reg, 0x8000_0007).unwrap();
    assert_eq!(c.read_word(reg).unwrap(), 0x8000_0007);
    assert_eq!(c.read_word(reg).unwrap(), 7);
    assert_eq!(c.read_word(reg).unwrap(), 7);
    let reads = c.notices.iter().filter(|n| !n.is_write && n.offset == 0x3000).count();
    assert_eq!(reads, 1);
}

#[test]
fn selected_tables_and_transmit_rates_are_kept() {
    let mut m = Mpcp::new();
    assert_eq!(m.address_ranges().len(), 4);
    m.poke_tx_rate(0x0100_1180, 5);
    assert_eq!(m.peek_tx_rate(0x0100_1180), 5);
    m.reset_cold();
    assert_eq!(m.peek_tx_rate(0x0100_1180), 0x8000_0000);
}

#[test]
fn the_lane_bus_is_busy_for_its_ticks() {
    let mut bus = LaneBus::new(0x0100_0118, 2);
    assert!(bus.claims(0x0100_0160) && !bus.claims(0x0100_0118));
    bus.go_busy();
    assert!(bus.is_busy());
    bus.tick();
    bus.tick();
    bus.tick();
    assert!(!bus.is_busy());
    bus.set_idle();
    bus.set_reg(3, 9);
    assert_eq!((bus.reg(3), bus.regs_slice(3, 1)), (9, &[9u32][..]));
    bus.set_data(4);
    assert_eq!(bus.read_data(), 4);
    bus.set_raw_stat(6);
    assert_eq!(bus.raw_stat(), 6);
}

#[test]
fn alarms_are_forced_once_and_cleared_by_name() {
    let mut a = AlarmEvents::new();
    a.force_pending(1);
    a.force_pending(2);
    a.force_pending(1);
    a.clear_pending(1);
    assert_eq!(a.forced_opcodes(), &[2u16]);
    a.clear_pending(9);
    assert_eq!(a.forced_opcodes(), &[2u16]);
    a.reset_cold();
    assert!(a.forced_opcodes().is_empty());
}

#[test]
fn the_oldest_record_makes_room_for_a_new_address() {
    let mut log = AccessLog::new();
    for addr in 0..4096u32 {
        log.record_last_access(addr, 0, "read");
    }
    log.record_last_access(0, 1, "read");
    log.record_last_access(5000, 2, "write");
    assert_eq!(log.last_access.len(), 4096);
    assert!(log.last_access_of(1).is_none());
    assert_eq!(log.last_access_of(0).unwrap().value, 1);
    assert_eq!(log.last_access_of(5000).unwrap().value, 2);
}

#[test]
fn a_command_takes_the_oldest_frame_of_its_queue() {
    let mut link = OltLink::new();
    link.mailbox = AddressRange::new(0x100, 0x200);
    link.cmd_addr = Some(0x120);
    link.data_addr = Some(0x110);
    link.slot_shift = 4;
    link.slot_mask = 0x3F;
    link.enqueue(0x10, vec![1, 2]);
    link.enqueue(0x21, vec![3]);
    link.enqueue(0x10, vec![4]);
    assert_eq!(link.mailbox_bitmap(), [1 << 0x10, 2, 0, 0, 0, 0]);
    assert_eq!(link.arrivals, vec![(0x10, 1), (0x21, 1), (0x10, 1)]);
    assert!(link.write_cmd(0x120, 0x100));
    assert_eq!((link.fifo.clone(), link.mailbox_bitmap()[0]), (vec![1, 2], 1 << 0x10));
    assert!(link.write_cmd(0x120, 0x100));
    assert_eq!((link.fifo.clone(), link.mailbox_bitmap()), (vec![4], [0, 2, 0, 0, 0, 0]));
    assert!(link.write_cmd(0x120, 0x050));
    assert_eq!((link.fifo.clone(), link.queued.len()), (vec![4], 1));
}

#[test]
fn written_flash_is_marked() {
    let mut flash = SpiFlash::new();
    flash.execute_fifo_command(&[CMD_PP, 0, 0, 0, 1], 0);
    assert!(!flash.dirty);
    flash.execute_fifo_command(&[CMD_WREN], 0);
    assert!(!flash.dirty);
    flash.execute_fifo_command(&[CMD_PP, 0, 0, 0, 1], 0);
    assert!(flash.dirty && flash.data[0] == 1);
}
