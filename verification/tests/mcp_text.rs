use arc700::mcp::handler::{
    default_oneshot_count, default_override_mode, default_true, default_wp_mode, default_wp_size,
    HexU32, HexValue,
};
use arc700::mcp::hex::{
    bytes_to_hex, decode_hex, format_mac, hex_decode, hex_nibble, hex_word, parse_addr_str,
    parse_mac_str,
};
use arc700::mcp::tools::{
    is_mutation_tool, push_log_request, push_log_response, summarise_request, summarise_result,
    truncate, Direction,
};

#[test]
fn bytes_are_shown_in_upper_case_and_read_back() {
    let bytes = [0x00u8, 0x0F, 0xA5, 0xFF];
    let text = bytes_to_hex(&bytes);
    assert_eq!(text, "000FA5FF");
    assert_eq!(decode_hex(&text), Ok(bytes.to_vec()));
    assert_eq!(bytes_to_hex(&[]), "");
}

#[test]
fn space_in_hexadecimal_does_not_count() {
    assert_eq!(decode_hex(" de\tAD\nbe ef "), Ok(vec![0xDE, 0xAD, 0xBE, 0xEF]));
    assert_eq!(decode_hex(""), Ok(vec![]));
}

#[test]
fn broken_hexadecimal_is_refused() {
    assert_eq!(decode_hex("ABC"), Err(()));
    assert_eq!(decode_hex("0x12"), Err(()));
    assert_eq!(decode_hex("\u{e9}"), Err(()));
    assert_eq!(hex_nibble(b'g'), Err(()));
    assert_eq!(hex_nibble(b'f'), Ok(15));
    assert_eq!(hex_nibble(b'B'), Ok(11));
    assert_eq!(hex_nibble(b'7'), Ok(7));
}

#[test]
fn a_frame_may_have_a_prefix_but_no_space_inside() {
    assert_eq!(hex_decode(" 0x0180c2 "), Some(vec![0x01, 0x80, 0xC2]));
    assert_eq!(hex_decode("0XFF"), Some(vec![0xFF]));
    assert_eq!(hex_decode("+a"), Some(vec![0x0A]));
    assert_eq!(hex_decode("0"), None);
    assert_eq!(hex_decode("01 80"), None);
    assert_eq!(hex_decode("zz"), None);
    assert_eq!(hex_decode(""), Some(vec![]));
}

#[test]
fn hardware_addresses_read_back() {
    let mac = [0x02, 0x00, 0x5E, 0xAB, 0xCD, 0xEF];
    assert_eq!(format_mac(&mac), "02:00:5E:AB:CD:EF");
    assert_eq!(parse_mac_str(&format_mac(&mac)), Some(mac));
    assert_eq!(parse_mac_str("2:0:5e:ab:cd:ef"), Some(mac));
    assert_eq!(parse_mac_str("02:00:5E:AB:CD"), None);
    assert_eq!(parse_mac_str("02:00:5E:AB:CD:EF:01"), None);
    assert_eq!(parse_mac_str("02:00:5E:AB:CD:100"), None);
    assert_eq!(parse_mac_str("02:00:5E:AB:CD:"), None);
}

#[test]
fn addresses_are_decimal_unless_they_have_a_prefix() {
    assert_eq!(parse_addr_str(" 0x0100240C "), Some(0x0100_240C));
    assert_eq!(parse_addr_str("0XFFFFFFFF"), Some(0xFFFF_FFFF));
    assert_eq!(parse_addr_str("16786444"), Some(16_786_444));
    assert_eq!(parse_addr_str("4294967296"), None);
    assert_eq!(parse_addr_str("0x"), None);
    assert_eq!(parse_addr_str("-1"), None);
    assert_eq!(parse_addr_str("12ab"), None);
}

#[test]
fn words_in_requests_are_cut_to_size() {
    assert_eq!(HexU32::from_unsigned(0x1_0000_0005), HexU32(5));
    assert_eq!(HexU32::from_signed(-1), HexU32(0xFFFF_FFFF));
    assert_eq!(HexU32::from_text("0x10"), Some(HexU32(16)));
    assert_eq!(HexU32::from_text("ten"), None);
    assert_eq!(u32::from(HexU32(7)), 7);
    assert_eq!(HexU32::default(), HexU32(0));
}

#[test]
fn words_in_answers_are_shown_in_full() {
    assert_eq!(HexValue(0x0100_0E04).text(), "0x01000E04");
    assert_eq!(hex_word(0), "0x00000000");
    assert_eq!(HexValue::from(9u32), HexValue(9));
    assert_eq!(u32::from(HexValue(9)), 9);
    assert_eq!(HexValue::default(), HexValue(0));
}

#[test]
fn requests_have_defaults() {
    assert_eq!(default_override_mode(), "static");
    assert_eq!(default_oneshot_count(), 1);
    assert_eq!(default_wp_size(), 4);
    assert_eq!(default_wp_mode(), "rw");
    assert!(default_true());
}

#[test]
fn tools_that_change_the_machine_are_told_apart() {
    assert!(is_mutation_tool("load_firmware"));
    assert!(is_mutation_tool("read_mmio"));
    assert!(is_mutation_tool("olt_inject_frame"));
    assert!(!is_mutation_tool("peek_mmio"));
    assert!(is_mutation_tool("load_scenario"));
    assert!(is_mutation_tool("clear_scenario"));
    assert!(!is_mutation_tool("list_mmio_watchpoints"));
    assert!(!is_mutation_tool(""));
}

#[test]
fn long_texts_are_cut_with_an_ellipsis() {
    assert_eq!(truncate("abc", 3), "abc");
    assert_eq!(truncate("abcd", 3), "abc\u{2026}");
    assert_eq!(truncate("", 0), "");
}

#[test]
fn an_answer_is_summed_up_by_what_it_has() {
    let long = "x".repeat(300);
    let cut = format!("{}\u{2026}", "x".repeat(240));
    assert_eq!(summarise_result(Some("{}"), Some("text"), None), "{}");
    assert_eq!(summarise_result(None, Some(&long), None), cut);
    assert_eq!(summarise_result(None, None, Some(true)), "error");
    assert_eq!(summarise_result(None, None, Some(false)), "ok");
    assert_eq!(summarise_result(None, None, None), "ok");
    assert_eq!(summarise_request(Some(&long)), cut);
    assert_eq!(summarise_request(None), "");
}

#[test]
fn calls_in_flight_are_counted() {
    let (n, request) = push_log_request(0, "cpu_run", "{}", true);
    assert_eq!(n, 1);
    assert_eq!(request.direction, Direction::Request);
    assert_eq!((request.tool.as_str(), request.params.as_str()), ("cpu_run", "{}"));
    assert!(request.result.is_empty() && request.is_mutation);
    let (n, response) = push_log_response(n, "cpu_run", "ok", true);
    assert_eq!(n, 0);
    assert_eq!(response.direction, Direction::Response);
    assert_eq!(response.result, "ok");
    assert_eq!(push_log_response(0, "t", "", false).0, 0);
    assert_eq!(push_log_request(u32::MAX, "t", "", false).0, u32::MAX);
}
