use arc700::cpu::exception::Exception;
use arc700::memory::fill::{sram_fill, sram_initial};
use arc700::memory::watch::{WatchMode, Watchpoint, MISALIGNED_LOG_CAP};
use arc700::memory::Memory;
use arc700::soc::alarm::{
    AlarmModel, ALARM_MASK_BASE, GPIO_CHAN15_HEAD, GPIO_CHAN15_NODE_ADDR, SEED_AFTER,
};
use arc700::soc::bank::BootMode;
use arc700::soc::peripheral::{DatapathOp, PeripheralId};

fn soc() -> Memory {
    Memory::new_soc(0x8000, BootMode::Warm)
}

#[test]
fn accesses_outside_flat_memory_fail() {
    let mut mem = Memory::new(8);
    assert_eq!(
        mem.read_word(8),
        Err(Exception::MemoryError { address: 8, is_write: false })
    );
    assert_eq!(mem.read_word(2), Err(Exception::MisalignedAccess { address: 2 }));
    assert!(mem.write_word(8, 0).is_err());
    assert!(mem.write_half(3, 0).is_err());
    assert!(mem.read_byte(8).is_err());
    assert!(!mem.is_soc());
    assert_eq!(mem.sram_size(), 8);
}

#[test]
fn sram_is_filled_as_asked() {
    assert_eq!(sram_fill(None), 0);
    assert_eq!(sram_fill(Some("0xA5")), 0xA5);
    assert_eq!(sram_fill(Some(" 17 ")), 17);
    assert_eq!(sram_fill(Some("256")), 0);
    assert_eq!(sram_initial(3, Some("0xFF")), vec![0xFF; 3]);
    let noise = sram_initial(64, Some("Noise"));
    assert_eq!(&sram_initial(16, Some(" noise "))[..], &noise[..16]);
    assert_ne!(noise, vec![noise[0]; 64]);
    let mut mem = Memory::new_soc_filled(64, BootMode::Cold, Some("0x11"));
    assert_eq!(mem.read_word(0).unwrap(), 0x1111_1111);
}

#[test]
fn the_pattern_starts_as_its_seed_says() {
    let mut x: u32 = 0x1357_9BDF;
    let mut want = Vec::new();
    for _ in 0..8 {
        x ^= x << 13;
        x ^= x >> 17;
        x ^= x << 5;
        want.push((x >> 24) as u8);
    }
    assert_eq!(sram_initial(8, Some("noise")), want);
}

#[test]
fn sram_is_taken_out_and_put_back() {
    let mut mem = soc();
    mem.load_binary(0x10, &[1, 2, 3, 4]);
    let image = mem.sram_snapshot();
    assert_eq!(&image[0x10..0x14], &[1, 2, 3, 4]);
    assert_eq!(mem.sram_slice(0x11, 2), Some(&[2u8, 3][..]));
    assert_eq!(mem.sram_slice(0x7FFF, 2), None);
    mem.load_binary(0x10, &[9, 9, 9, 9]);
    mem.restore_sram(&image);
    assert_eq!(mem.read_word(0x10).unwrap(), 0x0102_0304);
}

#[test]
fn watchpoints_trigger_on_the_accesses_they_watch() {
    let wp = Watchpoint { addr: 0x100, size: 4, mode: WatchMode::Write };
    assert!(wp.matches(0x102, 1, WatchMode::Write));
    assert!(wp.matches(0xFE, 4, WatchMode::Write));
    assert!(!wp.matches(0x104, 4, WatchMode::Write));
    assert!(!wp.matches(0x100, 4, WatchMode::Read));
    let none = Watchpoint { addr: 0x100, size: 0, mode: WatchMode::ReadWrite };
    assert!(!none.matches(0x100, 4, WatchMode::Read));

    let mut mem = soc();
    assert_eq!(mem.watchpoints.add(wp), 0);
    mem.read_word_data(0x100, false).unwrap();
    assert_eq!(mem.watchpoints.take_hit(), None);
    mem.write_word_data(0x100, 1, false).unwrap();
    assert_eq!(mem.watchpoints.take_hit(), Some((0x100, WatchMode::Write)));
    assert_eq!(mem.watchpoints.take_hit(), None);
    mem.watchpoints.remove(0);
    assert!(mem.watchpoints.is_empty());
}

#[test]
fn the_log_of_misaligned_accesses_is_capped() {
    let mut mem = Memory::new(16);
    for _ in 0..MISALIGNED_LOG_CAP + 6 {
        mem.read_word_data(1, false).unwrap();
    }
    assert_eq!(mem.misaligned_data.count, MISALIGNED_LOG_CAP as u64 + 6);
    assert_eq!(mem.misaligned_data.hits.len(), MISALIGNED_LOG_CAP);
}

#[test]
fn stores_to_the_watched_word_are_reported() {
    let mut mem = soc();
    mem.dccm_watchpoint = Some(0x200);
    mem.write_word_data(0x200, 5, true).unwrap();
    mem.write_word_data(0x204, 6, true).unwrap();
    mem.write_byte_data(0x203, 7, true).unwrap();
    assert_eq!(mem.dccm_reports.len(), 2);
    assert_eq!((mem.dccm_reports[0].offset, mem.dccm_reports[0].old), (0x200, 0));
    assert_eq!((mem.dccm_reports[1].size, mem.dccm_reports[1].old), (1, 5));
}

#[test]
fn caches_are_saved_and_restored() {
    let mut mem = soc();
    mem.write_word_data(0x100, 0xAA, false).unwrap();
    let (dc, ic) = mem.save_cache_state();
    mem.dcache_invalidate_all().unwrap();
    mem.write_word_data(0x100, 0xBB, true).unwrap();
    mem.restore_cache_state(dc, ic);
    assert_eq!(mem.read_word_data(0x100, false).unwrap(), 0xAA);
    assert_eq!(mem.read_word_data(0x100, true).unwrap(), 0xBB);
}

#[test]
fn a_line_can_be_dropped_alone() {
    let mut mem = soc();
    mem.write_word_data(0x100, 1, false).unwrap();
    mem.write_word_data(0x200, 2, false).unwrap();
    mem.dcache_invalidate_line(0x100).unwrap();
    assert_eq!(mem.read_word_data(0x100, true).unwrap(), 1);
    assert_eq!(mem.read_word_data(0x200, true).unwrap(), 0);
    assert_eq!(mem.dcache_snapshot().iter().filter(|l| l.dirty).count(), 1);
}

#[test]
fn fetched_lines_are_stale_until_invalidated() {
    let mut mem = soc();
    mem.load_binary(0x40, &[0xAA, 0xBB, 0xCC, 0xDD]);
    assert_eq!(mem.fetch_word(0x40).unwrap(), 0xAABB_CCDD);
    mem.write_word_data(0x40, 0x1122_3344, true).unwrap();
    mem.icache_invalidate_line(0x40);
    assert_eq!(mem.fetch_half(0x40).unwrap(), 0x1122);
    mem.icache_invalidate_all();
    assert_eq!(mem.fetch_word(0x40).unwrap(), 0x1122_3344);
    assert!(mem.fetch_half(0x41).is_err());
}

#[test]
fn work_for_the_memory_is_done() {
    let mut mem = soc();
    mem.write_word_data(0x300, 0x55, false).unwrap();
    mem.apply_datapath_op(DatapathOp::CacheInvalidate { addr: 0x300 }).unwrap();
    mem.load_binary(0x400, &[0x12, 0x34]);
    mem.apply_datapath_op(DatapathOp::FlashWrite {
        peripheral: PeripheralId::Pbc,
        flash_addr: 8,
        sram_addr: 0x400,
        length: 2,
    })
    .unwrap();
    let flash = &mem.bank.as_ref().unwrap().pbc.flash;
    assert_eq!(&flash.data[8..10], &[0x12, 0x34]);
}

#[test]
fn the_bus_is_reached_through_memory() {
    let mut mem = soc();
    mem.write_word_data(0x0100_1180, 0x77, true).unwrap();
    assert_eq!(mem.read_word_data(0x0100_1180, true).unwrap(), 0x77);
    assert_eq!(mem.read_word(0x0100_1180).unwrap(), 0x77);
    mem.write_byte(0x0100_1183, 0x88).unwrap();
    assert_eq!(mem.read_half(0x0100_1182).unwrap(), 0x88);
    assert!(mem.bank().is_some());
}

#[test]
fn uncached_stores_to_the_vectors_reach_the_oscillators() {
    let mut mem = soc();
    mem.write_word_data(0x10, 0xCAFE_F00D, true).unwrap();
    assert_eq!(mem.bank.as_ref().unwrap().nco.channels[4], 0xCAFE_F00D);
    mem.write_word_data(0x14, 0x1, false).unwrap();
    assert_eq!(mem.bank.as_ref().unwrap().nco.channels[5], 0);
}

#[test]
fn alarms_are_seeded_and_stand() {
    let mut mem = Memory::new_soc(0x8_0000, BootMode::Warm);
    let mut alarms = AlarmModel::new();
    alarms.tick(&mut mem, 64);
    alarms.tick(&mut mem, SEED_AFTER + 1);
    assert!(!alarms.seeded);
    alarms.tick(&mut mem, SEED_AFTER);
    assert!(alarms.seeded);
    assert_eq!(mem.read_word(GPIO_CHAN15_HEAD).unwrap(), GPIO_CHAN15_NODE_ADDR);
    let mask = ALARM_MASK_BASE + 27 * 8 + 4;
    assert_ne!(mem.read_word(mask).unwrap(), 0);
    mem.write_word(mask, 0).unwrap();
    mem.write_word(GPIO_CHAN15_HEAD, 0).unwrap();
    alarms.tick(&mut mem, SEED_AFTER + 64);
    assert_ne!(mem.read_word(mask).unwrap(), 0);
    assert_eq!(mem.read_word(GPIO_CHAN15_HEAD).unwrap(), GPIO_CHAN15_NODE_ADDR);
}

#[test]
fn stored_values_load_back() {
    for store_bypass in [false, true] {
        let mut mem = soc();
        mem.write_word_data(0x103, 0x1122_3344, store_bypass).unwrap();
        mem.write_half_data(0x207, 0xBEEF, store_bypass).unwrap();
        mem.write_byte_data(0x301, 0x5A, store_bypass).unwrap();
        assert_eq!(mem.read_word_data(0x100, false), Ok(0x1122_3344));
        assert_eq!(mem.read_half_data(0x206, false), Ok(0xBEEF));
        assert_eq!(mem.read_byte_data(0x301, false), Ok(0x5A));
        if store_bypass {
            assert_eq!(mem.read_word_data(0x100, true), Ok(0x1122_3344));
            assert_eq!(mem.read_half_data(0x206, true), Ok(0xBEEF));
            assert_eq!(mem.read_byte_data(0x301, true), Ok(0x5A));
        } else {
            assert_eq!(mem.read_word_data(0x100, true), Ok(0));
        }
    }
    let mut flat = Memory::new(16);
    flat.write_word_data(4, 0xCAFE_F00D, false).unwrap();
    assert_eq!(flat.read_word_data(5, true), Ok(0xCAFE_F00D));
}
