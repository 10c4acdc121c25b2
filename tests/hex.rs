use stream_engine::hex::upper_hex;

#[test]
fn upper_hex_digits() {
    assert_eq!(upper_hex(0), "0");
    assert_eq!(upper_hex(15), "F");
    assert_eq!(upper_hex(16), "10");
    assert_eq!(upper_hex(0x1A2B), "1A2B");
    assert_eq!(upper_hex(u64::MAX), "FFFFFFFFFFFFFFFF");
}
