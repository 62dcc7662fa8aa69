use arc700::soc::alarm::{opcode_to_handler_index, HANDLER_COUNT, PERSISTENT_OPCODES};

#[test]
fn persistent_opcodes_map_to_distinct_indices() {
    let mut seen = std::collections::HashSet::new();
    for &op in &PERSISTENT_OPCODES {
        let idx = opcode_to_handler_index(op).expect("must map");
        assert!(seen.insert(idx), "opcode {op} duplicated index {idx}");
    }
}

#[test]
fn opcode_indices_match_investigation_table() {
    assert_eq!(opcode_to_handler_index(23), Some(22));
    assert_eq!(opcode_to_handler_index(28), Some(27));
    assert_eq!(opcode_to_handler_index(64), Some(36));
    assert_eq!(opcode_to_handler_index(131), Some(57));
    assert_eq!(opcode_to_handler_index(193), Some(65));
    assert_eq!(opcode_to_handler_index(199), Some(71));
    assert_eq!(opcode_to_handler_index(201), Some(73));
}

#[test]
fn unmapped_opcodes_have_no_handler() {
    for op in [0u16, 0x25, 0x3F, 0x101, 0x29E, 0x1005, 0xFFFF] {
        assert_eq!(opcode_to_handler_index(op), None);
    }
    assert_eq!(opcode_to_handler_index(1), Some(0));
    for op in 0..=u16::MAX {
        if let Some(i) = opcode_to_handler_index(op) {
            assert!(i < HANDLER_COUNT);
        }
    }
    assert_eq!(opcode_to_handler_index(0x1004), Some(146));
}
