use image_registry::hex::hash_to_hex;

#[test]
fn uniform_bytes() {
    assert_eq!(hash_to_hex(&[0x11u8; 32]), [b'1'; 64].to_vec());
    assert_eq!(hash_to_hex(&[0u8; 32]), [b'0'; 64].to_vec());
    assert_eq!(hash_to_hex(&[0xffu8; 32]), [b'f'; 64].to_vec());
}

#[test]
fn mixed_bytes() {
    let mut hash = [0u8; 32];
    hash[0] = 0x01;
    hash[1] = 0xab;
    hash[2] = 0xcd;
    hash[3] = 0xef;
    hash[31] = 0x9a;
    let hex = hash_to_hex(&hash);
    let text = String::from_utf8(hex).expect("hex is ASCII");
    assert_eq!(&text[0..8], "01abcdef");
    assert_eq!(&text[8..62], &"00".repeat(27));
    assert_eq!(&text[62..64], "9a");
}
