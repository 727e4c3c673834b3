use dexor::{xor_in_place, DEFAULT_XOR_KEY};

#[test]
fn xor_is_symmetric() {
    let original = b"MZ\x90\x00\x03 the original program bytes".to_vec();
    let mut buf = original.clone();
    xor_in_place(&mut buf, DEFAULT_XOR_KEY); // scramble
    assert_ne!(buf, original, "scrambled bytes should differ");
    xor_in_place(&mut buf, DEFAULT_XOR_KEY); // decode
    assert_eq!(buf, original, "decode must reproduce original exactly");
}

#[test]
fn known_value() {
    let mut b = [0x00u8, 0xFF, 0x77];
    xor_in_place(&mut b, DEFAULT_XOR_KEY);
    assert_eq!(b, [0x77, 0x88, 0x00]);
}

#[test]
fn xor_twice_restores_for_every_key() {
    let original: Vec<u8> = (0..=255u8).collect();
    for key in 0..=255u8 {
        let mut buf = original.clone();
        xor_in_place(&mut buf, key);
        xor_in_place(&mut buf, key);
        assert_eq!(buf, original);
    }
}

#[test]
fn nonzero_key_changes_every_byte() {
    let original: Vec<u8> = (0..=255u8).collect();
    for key in 1..=255u8 {
        let mut buf = original.clone();
        xor_in_place(&mut buf, key);
        for (a, b) in buf.iter().zip(original.iter()) {
            assert_ne!(a, b);
        }
    }
    let mut buf = original.clone();
    xor_in_place(&mut buf, 0);
    assert_eq!(buf, original);
}

#[test]
fn xor_of_empty_buffer_is_empty() {
    let mut buf: Vec<u8> = Vec::new();
    xor_in_place(&mut buf, 0x5a);
    assert!(buf.is_empty());
}

#[test]
fn xor_exact_values() {
    let mut b = [0x12u8, 0x34, 0xab];
    xor_in_place(&mut b, 0xFF);
    assert_eq!(b, [0xED, 0xCB, 0x54]);
}
