use arc700::memory::watch::ReadTrace;
use arc700::memory::Memory;
use arc700::soc::bank::BootMode;
use arc700::soc::peripheral::DatapathOp;

#[test]
fn test_big_endian_word() {
    let mut mem = Memory::new(16);
    mem.write_word(0, 0xDEADBEEF).unwrap();
    assert_eq!(mem.read_word(0).unwrap(), 0xDEADBEEF);
}

#[test]
fn test_big_endian_half() {
    let mut mem = Memory::new(16);
    mem.write_half(0, 0xCAFE).unwrap();
    assert_eq!(mem.read_half(0).unwrap(), 0xCAFE);
}

#[test]
fn test_byte() {
    let mut mem = Memory::new(16);
    mem.write_byte(5, 0x42).unwrap();
    assert_eq!(mem.read_byte(5).unwrap(), 0x42);
}

#[test]
fn test_misaligned_word() {
    let mut mem = Memory::new(16);
    assert!(mem.read_word(1).is_err());
}

#[test]
fn test_load_binary() {
    let mut mem = Memory::new(16);
    mem.load_binary(0, &[0x20, 0x00, 0x08, 0x00]);
    assert_eq!(mem.read_word(0).unwrap(), 0x20000800);
}

#[test]
fn test_unified_sram_soc_warm() {
    let mut mem = Memory::new_soc(1024, BootMode::Warm);
    mem.load_binary(0, &[0xAA, 0xBB, 0xCC, 0xDD]);
    assert_eq!(mem.fetch_half(0).unwrap(), 0xAABB);
    assert_eq!(mem.fetch_word(0).unwrap(), 0xAABBCCDD);
    assert_eq!(mem.read_half(0).unwrap(), 0xAABB);
    assert_eq!(mem.read_word(0).unwrap(), 0xAABBCCDD);
}

#[test]
fn test_dcache_writes_are_write_back() {
    let mut mem = Memory::new_soc(4096, BootMode::Warm);
    mem.write_word_data(0x100, 0xDEADBEEF, false).unwrap();

    assert_eq!(mem.read_word_data(0x100, false).unwrap(), 0xDEADBEEF);
    assert_eq!(mem.read_word(0x100).unwrap(), 0xDEADBEEF);

    assert_eq!(mem.read_word_data(0x100, true).unwrap(), 0);

    mem.dcache_invalidate_all().unwrap();
    assert_eq!(mem.read_word_data(0x100, true).unwrap(), 0xDEADBEEF);
    assert_eq!(mem.read_word(0x100).unwrap(), 0xDEADBEEF);
}

#[test]
fn test_dcache_adjacent_words_no_alias() {
    let mut mem = Memory::new_soc(16 * 1024, BootMode::Warm);
    let canary: u32 = 0x3A30;
    let ticks: u32 = 0x3A34;
    assert_eq!(canary & !0x1F, ticks & !0x1F, "must share one 32 B line");

    for a in (0x3A20u32..0x3A40).step_by(4) {
        mem.write_word_data(a, 0, false).unwrap();
    }
    mem.write_word_data(canary, 0xDEADBEEF, false).unwrap();
    mem.write_word_data(ticks, 0xAA, false).unwrap();
    assert_eq!(mem.read_word_data(canary, false).unwrap(), 0xDEADBEEF);
    assert_eq!(mem.read_word_data(ticks, false).unwrap(), 0xAA);

    let mut mem = Memory::new_soc(16 * 1024, BootMode::Warm);
    mem.write_word_data(canary, 0xDEADBEEF, false).unwrap();
    mem.write_word_data(ticks, 0xAA, false).unwrap();
    assert_eq!(mem.read_word_data(canary, false).unwrap(), 0xDEADBEEF);

    let mut mem = Memory::new_soc(16 * 1024, BootMode::Warm);
    for (i, b) in [0xDE, 0xAD, 0xBE, 0xEF].iter().enumerate() {
        mem.write_byte_data(canary + i as u32, *b, false).unwrap();
    }
    mem.write_word_data(ticks, 0xAA, false).unwrap();
    assert_eq!(mem.read_word_data(canary, false).unwrap(), 0xDEADBEEF);

    let mut mem = Memory::new_soc(128 * 1024, BootMode::Warm);
    mem.write_word_data(canary, 0xDEADBEEF, false).unwrap();
    let stride: u32 = 64 * 32;
    for k in 1..=3 {
        mem.write_word_data(canary + k * stride, 0x1111_0000 | k, false)
            .unwrap();
    }
    assert_eq!(mem.read_word_data(canary, false).unwrap(), 0xDEADBEEF);
    mem.write_word_data(ticks, 0xAA, false).unwrap();
    assert_eq!(mem.read_word_data(canary, false).unwrap(), 0xDEADBEEF);
    assert_eq!(mem.read_word_data(ticks, false).unwrap(), 0xAA);
}

#[test]
fn test_dcache_bypass_writes_to_sram() {
    let mut mem = Memory::new_soc(4096, BootMode::Warm);
    mem.write_word_data(0x200, 0xCAFEBABE, true).unwrap();
    assert_eq!(mem.read_word(0x200).unwrap(), 0xCAFEBABE);
    assert_eq!(mem.read_word_data(0x200, false).unwrap(), 0xCAFEBABE);
}

#[test]
fn test_dcache_invalidate_flushes_dirty() {
    let mut mem = Memory::new_soc(4096, BootMode::Warm);
    mem.write_word_data(0x300, 0x12345678, false).unwrap();
    assert_eq!(mem.read_word(0x300).unwrap(), 0x12345678);
    mem.dcache_invalidate_all().unwrap();
    assert_eq!(mem.read_word(0x300).unwrap(), 0x12345678);
}

#[test]
fn dc_ctrl_disable_strands_dirty_lines() {
    let mut mem = Memory::new_soc(0x8000, BootMode::Warm);
    let slot = 0x1F88u32;
    let saved_fp = 0x0003_1FB8u32;
    mem.write_word_data(slot, saved_fp, false).unwrap();
    assert_eq!(mem.read_word_data(slot, true).unwrap(), 0x0000_0000);
    mem.dcache_sync_ctrl(0xC3);
    assert_eq!(mem.read_word_data(slot, true).unwrap(), 0x0000_0000);
    assert_eq!(mem.read_word_data(slot, false).unwrap(), 0x0000_0000);
}

#[test]
fn write_back_invalidate_before_disable_preserves_the_line() {
    let mut mem = Memory::new_soc(0x8000, BootMode::Warm);
    let slot = 0x1F88u32;
    let saved_fp = 0x0003_1FB8u32;
    mem.write_word_data(slot, saved_fp, false).unwrap();
    mem.dcache_invalidate_all().unwrap();
    mem.dcache_sync_ctrl(0xC3);
    assert_eq!(mem.read_word_data(slot, true).unwrap(), saved_fp);
    assert_eq!(mem.read_word_data(slot, false).unwrap(), saved_fp);
}

#[test]
fn dma_sram_write_preserves_dirty_saved_blink_line() {
    let mut mem = Memory::new_soc(0x8000, BootMode::Warm);
    let slot = 0x1F7Cu32;
    let saved_blink = 0x0003_60BEu32;
    mem.write_word_data(slot, saved_blink, false).unwrap();
    assert_eq!(mem.read_word_data(slot, false).unwrap(), saved_blink);
    assert_eq!(mem.read_word_data(slot, true).unwrap(), 0x0000_0000);

    mem.apply_datapath_op(DatapathOp::SramWrite {
        sram_addr: 0x1F70,
        data: vec![0xFF, 0xFF, 0xFF, 0xFF],
    })
    .unwrap();

    assert_eq!(
        mem.read_word_data(slot, false).unwrap(),
        saved_blink,
        "DMA SRAM write must not evict the dirty saved-blink line"
    );
    assert_eq!(mem.read_word_data(0x1F70, true).unwrap(), 0xFFFF_FFFF);
}

const PATTERN: [u8; 8] = [0x80, 0xFF, 0x00, 0xAA, 0x11, 0x22, 0x33, 0x44];
const BASE: u32 = 0x10;

fn patterned_flat() -> Memory {
    let mut mem = Memory::new(64);
    mem.load_binary(BASE, &PATTERN);
    mem
}

fn patterned_soc() -> Memory {
    let mut mem = Memory::new_soc(0x8000, BootMode::Warm);
    mem.load_binary(BASE, &PATTERN);
    mem
}

#[test]
fn misaligned_word_load_reads_the_word_at_base() {
    let mut mem = patterned_flat();
    let base = BASE;
    assert_eq!(mem.read_word_data(base, false).unwrap(), 0x80FF_00AA);
    for off in 1..=3u32 {
        assert_eq!(
            mem.read_word_data(base + off, false).unwrap(),
            0x80FF_00AA,
            "ld base+{off} must transfer the word at base+0 (address & ~3)",
        );
    }
}

#[test]
fn misaligned_half_load_masks_per_width_not_to_the_word() {
    let mut mem = patterned_flat();
    let base = BASE;
    assert_eq!(mem.read_half_data(base, false).unwrap(), 0x80FF);
    assert_eq!(
        mem.read_half_data(base + 1, false).unwrap(),
        0x80FF,
        "ldw base+1 -> half-word at base+0",
    );
    assert_eq!(
        mem.read_half_data(base + 3, false).unwrap(),
        0x00AA,
        "ldw base+3 -> half-word at base+2, NOT base+0",
    );
    assert_eq!(mem.read_half_data(base + 2, false).unwrap(), 0x00AA);
}

#[test]
fn misaligned_word_store_overwrites_the_word_at_base() {
    for off in [1u32, 2, 3] {
        let mut mem = patterned_flat();
        let base = BASE;
        mem.write_word_data(base + off, 0xDEAD_BEEF, false).unwrap();
        assert_eq!(
            mem.read_word_data(base, false).unwrap(),
            0xDEAD_BEEF,
            "st base+{off} must overwrite the word at base+0",
        );
        assert_eq!(
            mem.read_word_data(base + 4, false).unwrap(),
            0x1122_3344,
            "st base+{off} must not disturb the next word",
        );
    }
}

#[test]
fn misaligned_half_store_masks_per_width() {
    let base = BASE;

    let mut mem = patterned_flat();
    mem.write_half_data(base + 1, 0xBEEF, false).unwrap();
    assert_eq!(
        mem.read_word_data(base, false).unwrap(),
        0xBEEF_00AA,
        "stw base+1 -> half-word at base+0; the rest of the word is intact",
    );

    let mut mem = patterned_flat();
    mem.write_half_data(base + 3, 0xBEEF, false).unwrap();
    assert_eq!(
        mem.read_word_data(base, false).unwrap(),
        0x80FF_BEEF,
        "stw base+3 -> half-word at base+2, NOT base+0",
    );
}

#[test]
fn misaligned_mask_holds_on_cached_and_di_paths() {
    for cache_bypass in [false, true] {
        let mut mem = patterned_soc();
        let base = BASE;
        assert_eq!(
            mem.read_word_data(base + 3, cache_bypass).unwrap(),
            0x80FF_00AA,
            "ld base+3 (.di={cache_bypass}) -> word at base+0",
        );
        assert_eq!(
            mem.read_half_data(base + 3, cache_bypass).unwrap(),
            0x00AA,
            "ldw base+3 (.di={cache_bypass}) -> half-word at base+2",
        );

        let mut mem = patterned_soc();
        mem.write_word_data(base + 1, 0xDEAD_BEEF, cache_bypass).unwrap();
        assert_eq!(
            mem.read_word_data(base, cache_bypass).unwrap(),
            0xDEAD_BEEF,
            "st base+1 (.di={cache_bypass}) -> word at base+0",
        );
    }
}

#[test]
fn aligned_data_accesses_are_unchanged() {
    let mut mem = patterned_flat();
    let base = BASE;
    assert_eq!(mem.read_word_data(base, false).unwrap(), 0x80FF_00AA);
    assert_eq!(mem.read_word_data(base + 4, false).unwrap(), 0x1122_3344);
    assert_eq!(mem.read_half_data(base, false).unwrap(), 0x80FF);
    assert_eq!(mem.read_half_data(base + 2, false).unwrap(), 0x00AA);
    assert_eq!(mem.read_half_data(base + 6, false).unwrap(), 0x3344);

    mem.write_word_data(base, 0xCAFE_BABE, false).unwrap();
    assert_eq!(mem.read_word_data(base, false).unwrap(), 0xCAFE_BABE);
    mem.write_half_data(base + 4, 0x1234, false).unwrap();
    assert_eq!(mem.read_half_data(base + 4, false).unwrap(), 0x1234);

    assert_eq!(
        mem.misaligned_data.count, 0,
        "aligned traffic must not be reported as misaligned",
    );
}

#[test]
fn byte_data_accesses_are_unaffected() {
    let mut mem = patterned_flat();
    let base = BASE;
    for (i, expect) in PATTERN.iter().enumerate() {
        assert_eq!(
            mem.read_byte_data(base + i as u32, false).unwrap(),
            *expect,
            "ldb base+{i} must read the byte at base+{i}",
        );
    }
    mem.write_byte_data(base + 3, 0x5A, false).unwrap();
    assert_eq!(mem.read_byte_data(base + 3, false).unwrap(), 0x5A);
    assert_eq!(mem.read_word_data(base, false).unwrap(), 0x80FF_005A);
    assert_eq!(mem.misaligned_data.count, 0);
}

#[test]
fn observer_reads_stay_faithful_and_do_not_round() {
    let mut mem = patterned_soc();
    let base = BASE;
    assert_eq!(
        mem.read_word(base + 1).unwrap(),
        0xFF00_AA11,
        "observer read_word(base+1) reports the bytes at base+1",
    );
    assert_eq!(mem.read_word(base + 3).unwrap(), 0xAA11_2233);
    assert_eq!(
        mem.read_half(base + 1).unwrap(),
        0xFF00,
        "observer read_half(base+1) reports the bytes at base+1",
    );
        assert_eq!(mem.read_word_data(base + 1, false).unwrap(), 0x80FF_00AA);
    assert_eq!(mem.read_half_data(base + 1, false).unwrap(), 0x80FF);
}

#[test]
fn misaligned_data_accesses_are_logged() {
    let mut mem = patterned_flat();
    let base = BASE;
    let _ = mem.read_word_data(base + 1, false).unwrap();
    let _ = mem.read_half_data(base + 3, false).unwrap();
    mem.write_word_data(base + 2, 0, false).unwrap();
    let _ = mem.read_byte_data(base + 1, false).unwrap();

    assert_eq!(mem.misaligned_data.count, 3);
    let hits = &mem.misaligned_data.hits;
    assert_eq!(hits.len(), 3);
    assert_eq!((hits[0].addr, hits[0].ea, hits[0].width, hits[0].is_write), (base + 1, base, 4, false));
    assert_eq!((hits[1].addr, hits[1].ea, hits[1].width, hits[1].is_write), (base + 3, base + 2, 2, false));
    assert_eq!((hits[2].addr, hits[2].ea, hits[2].width, hits[2].is_write), (base + 2, base, 4, true));
}

#[test]
fn read_trace_records_the_effective_address() {
    let mut mem = patterned_flat();
    let base = BASE;
    mem.read_trace = Some(ReadTrace { lo: 0, hi: 0x40, hits: Vec::new() });
    let _ = mem.read_word_data(base + 3, false).unwrap();
    let _ = mem.read_half_data(base + 3, false).unwrap();
    let hits = &mem.read_trace.as_ref().unwrap().hits;
    assert_eq!(hits[0], (base, 4, 0x80FF_00AA), "word trace records base+0");
    assert_eq!(hits[1], (base + 2, 2, 0x00AA), "half trace records base+2");
}

#[test]
fn dma_sram_write_refreshes_clean_line() {
    let mut mem = Memory::new_soc(0x8000, BootMode::Warm);
    let a = 0x2000u32;
    mem.apply_datapath_op(DatapathOp::SramWrite {
        sram_addr: a,
        data: vec![0x11, 0x22, 0x33, 0x44],
    })
    .unwrap();
    assert_eq!(mem.read_word_data(a, false).unwrap(), 0x1122_3344);
    mem.apply_datapath_op(DatapathOp::SramWrite {
        sram_addr: a,
        data: vec![0xAA, 0xBB, 0xCC, 0xDD],
    })
    .unwrap();
    assert_eq!(
        mem.read_word_data(a, false).unwrap(),
        0xAABB_CCDD,
        "clean line must refill from the freshly DMA-written SRAM"
    );
}
