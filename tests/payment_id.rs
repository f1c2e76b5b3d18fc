use xmrapp::PaymentId;

#[test]
fn hex_form_is_lower_case() {
    let id = PaymentId([0x44, 0x35, 0xa6, 0x47, 0x3c, 0xdc, 0x78, 0xbd]);
    assert_eq!(id.to_hex(), "4435a6473cdc78bd");
}

#[test]
fn hex_form_reads_back() {
    let id = PaymentId::from_hex(b"4435A6473cdc78BD").unwrap();
    assert_eq!(id, PaymentId([0x44, 0x35, 0xa6, 0x47, 0x3c, 0xdc, 0x78, 0xbd]));
    assert_eq!(PaymentId::from_hex(id.to_hex().as_bytes()), Some(id));
}

#[test]
fn hex_form_rejects_bad_text() {
    assert_eq!(PaymentId::from_hex(b"4435a6473cdc78b"), None);
    assert_eq!(PaymentId::from_hex(b"4435a6473cdc78bd00"), None);
    assert_eq!(PaymentId::from_hex(b"4435a6473cdc78bg"), None);
    assert_eq!(PaymentId::from_hex(b""), None);
}

#[test]
fn key_is_big_endian() {
    assert_eq!(PaymentId([0, 0, 0, 0, 0, 0, 1, 2]).key(), 258);
    assert_eq!(PaymentId([0xff; 8]).key(), u64::MAX);
    assert_eq!(PaymentId([1, 0, 0, 0, 0, 0, 0, 0]).key(), 1 << 56);
}
