use arc700::soc::analysis::{build_timeline, detect_patterns};
use arc700::soc::bank::MmioHistoryEntry;

fn entry(insn: u64, addr: u32, val: u32, dir: &'static str) -> MmioHistoryEntry {
    MmioHistoryEntry {
        insn,
        pc: 0x100,
        blink: 0,
        address: addr,
        value: val,
        direction: dir,
        width: "word",
        peripheral: "test",
        di: false,
    }
}

#[test]
fn busy_wait_detection() {
    let h: Vec<MmioHistoryEntry> = (0..8).map(|i| entry(i, 0x1000, 0x42, "read")).collect();
    let patterns = detect_patterns(&h);
    assert_eq!(patterns.len(), 1);
    assert_eq!(patterns[0].pattern_type, "busy_wait");
    assert_eq!(patterns[0].count, 8);
}

#[test]
fn write_then_poll_detection() {
    let mut h = vec![entry(0, 0x2000, 0xFF, "write")];
    for i in 1..=5 {
        h.push(entry(i, 0x2000, 0x01, "read"));
    }
    let patterns = detect_patterns(&h);
    assert!(patterns.iter().any(|p| p.pattern_type == "write_then_poll"));
}

#[test]
fn command_bit_detection() {
    let mut h = vec![entry(0, 0x3000, 0x8000_0001, "write")];
    h.push(entry(1, 0x3000, 0x8000_0001, "read"));
    h.push(entry(2, 0x3000, 0x8000_0001, "read"));
    h.push(entry(3, 0x3000, 0x0000_0001, "read"));
    let patterns = detect_patterns(&h);
    assert!(patterns.iter().any(|p| p.pattern_type == "command_bit"));
}

#[test]
fn timeline_burst() {
    let h: Vec<MmioHistoryEntry> = (0..6).map(|i| entry(i * 2, 0x1000 + (i as u32 % 3) * 4, 0, "read")).collect();
    let tl = build_timeline(&h, None, None);
    assert!(!tl.is_empty());
    assert_eq!(tl[0].access_count, 6);
}
