use container_logs::buffer::decode;

#[test]
fn valid_utf8_is_decoded_as_it_stands() {
    assert_eq!(decode(b"plain"), "plain");
    assert_eq!(decode("grüße ✓".as_bytes()), "grüße ✓");
    assert_eq!(decode(b""), "");
}

#[test]
fn invalid_sequences_are_replaced() {
    assert_eq!(decode(b"a\xffb"), "a\u{fffd}b");
    assert_eq!(decode(b"\xc3"), "\u{fffd}");
    assert_eq!(decode(b"x\xe2\x82y"), "x\u{fffd}y");
}
