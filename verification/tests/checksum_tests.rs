use city3d_stac::checksum::{content_checksum, hex_encode, multihash_hex};

#[test]
fn checksum_is_sha256_multihash() {
    assert_eq!(
        content_checksum(b"hello"),
        "12202cf24dba5fb0a30e26e83b2ac5b9e29e1b161e5c1fa7425e73043362938b9824"
    );
    assert_eq!(content_checksum(b"").len(), 68);
}

#[test]
fn hex_encoding_is_lower_case_two_digits_per_byte() {
    assert_eq!(hex_encode(&vec![0x00, 0x0f, 0xa0, 0xff]), "000fa0ff");
    assert_eq!(hex_encode(&vec![]), "");
    assert_eq!(multihash_hex(&vec![0xab]), "1220ab");
}
