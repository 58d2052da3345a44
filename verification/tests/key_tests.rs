use proxy_cache::key::{cache_key, decode_key, encode_key, KEY_LENGTH};

#[test]
fn key_of_empty_payload_is_the_xxh3_digest() {
    assert_eq!(cache_key(b""), 0x2D06_8005_38D3_94C2);
}

#[test]
fn key_agrees_with_xxh3() {
    let payloads: [&[u8]; 4] = [b"hello", b"WORLD", b"\x00\x01\x02", &[7u8; 300]];
    for payload in payloads {
        assert_eq!(cache_key(payload), xxhash_rust::xxh3::xxh3_64(payload));
    }
}

#[test]
fn key_is_deterministic() {
    assert_eq!(cache_key(b"hello"), cache_key(b"hello"));
    let long = vec![42u8; 4096];
    assert_eq!(cache_key(&long), cache_key(&long.clone()));
}

#[test]
fn key_tells_payloads_apart() {
    assert_ne!(cache_key(b"hello"), cache_key(b"hellp"));
    assert_ne!(cache_key(b"hello"), cache_key(b"hello "));
    assert_ne!(cache_key(b""), cache_key(b"\x00"));
}

#[test]
fn key_is_not_the_payload_itself() {
    let payload = 0x0102_0304_0506_0708u64.to_be_bytes();
    assert_ne!(cache_key(&payload), 0x0102_0304_0506_0708);
    assert_ne!(cache_key(&payload), u64::from_le_bytes(payload));
}

#[test]
fn key_length_is_eight() {
    assert_eq!(KEY_LENGTH, 8);
}

#[test]
fn encode_is_big_endian() {
    assert_eq!(encode_key(0x0102_0304_0506_0708), vec![1, 2, 3, 4, 5, 6, 7, 8]);
    assert_eq!(encode_key(1), vec![0, 0, 0, 0, 0, 0, 0, 1]);
    assert_eq!(encode_key(0), vec![0; 8]);
    assert_eq!(encode_key(u64::MAX), vec![0xff; 8]);
    assert_eq!(encode_key(0xff00_0000_0000_0000), vec![0xff, 0, 0, 0, 0, 0, 0, 0]);
}

#[test]
fn encode_agrees_with_to_be_bytes() {
    for key in [0u64, 1, 255, 256, 65535, 0xdead_beef, 0x8000_0000_0000_0000, u64::MAX - 1] {
        assert_eq!(encode_key(key), key.to_be_bytes().to_vec());
    }
}

#[test]
fn decode_rejects_short_keys() {
    assert_eq!(decode_key(&[]), None);
    assert_eq!(decode_key(&[1]), None);
    assert_eq!(decode_key(&[1, 2, 3, 4, 5, 6, 7]), None);
}

#[test]
fn decode_reads_eight_bytes() {
    assert_eq!(decode_key(&[1, 2, 3, 4, 5, 6, 7, 8]), Some(0x0102_0304_0506_0708));
    assert_eq!(decode_key(&[0, 0, 0, 0, 0, 0, 1, 0]), Some(256));
    assert_eq!(decode_key(&[0xff; 8]), Some(u64::MAX));
}

#[test]
fn decode_ignores_what_follows_the_eighth_byte() {
    assert_eq!(decode_key(&[0, 0, 0, 0, 0, 0, 0, 5, 9, 9, 9]), Some(5));
    assert_eq!(decode_key(&[1, 2, 3, 4, 5, 6, 7, 8, 0]), Some(0x0102_0304_0506_0708));
}

#[test]
fn decode_undoes_encode() {
    for key in [0u64, 1, 0x0102_0304_0506_0708, 0xdead_beef_cafe_f00d, u64::MAX] {
        assert_eq!(decode_key(&encode_key(key)), Some(key));
    }
}

#[test]
fn encode_undoes_decode() {
    let stored = [9u8, 8, 7, 6, 5, 4, 3, 2];
    let key = decode_key(&stored).unwrap();
    assert_eq!(encode_key(key), stored.to_vec());
}
