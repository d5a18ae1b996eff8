use websocket_std::mask::{apply_mask, gen_mask};
use websocket_std::key::{gen_key, verify_key};

#[test]
fn masking_is_an_involution_for_all_small_lengths() {
    let keys: [[u8; 4]; 3] = [[0, 0, 0, 0], [1, 2, 3, 4], [0xFF, 0x80, 0x7F, 0x01]];
    for key in keys.iter() {
        for n in 0..32usize {
            let data: Vec<u8> = (0..n).map(|i| (i * 37 + 11) as u8).collect();
            let masked = apply_mask(data.as_slice(), key);
            let unmasked = apply_mask(masked.as_slice(), key);
            assert_eq!(unmasked, data);
        }
    }
}

#[test]
fn masking_is_an_involution_for_random_keys() {
    for _ in 0..8 {
        let key = gen_mask();
        let data: Vec<u8> = (0..100).map(|i| i as u8).collect();
        let masked = apply_mask(data.as_slice(), &key);
        let unmasked = apply_mask(masked.as_slice(), &key);
        assert_eq!(unmasked, data);
    }
}

#[test]
fn apply_mask_cycles_the_key() {
    let key: [u8; 4] = [0xAA, 0xBB, 0xCC, 0xDD];
    let data = vec![0u8; 6];
    let masked = apply_mask(data.as_slice(), &key);
    assert_eq!(masked, vec![0xAA, 0xBB, 0xCC, 0xDD, 0xAA, 0xBB]);
}

#[test]
fn handshake_acceptance_canonical_nonce() {
    // The canonical example pair from the protocol specification.
    assert!(verify_key("dGhlIHNhbXBsZSBub25jZQ==", "s3pPLMBiTxaQ9kYGzzhZRbK+xOo="));
}

#[test]
fn handshake_acceptance_rejects_wrong_hash() {
    assert!(!verify_key("dGhlIHNhbXBsZSBub25jZQ==", "s3pPLMBiTxaQ9kYGzzhZRbK+xOo="
        .to_lowercase()
        .as_str()));
    assert!(!verify_key("dGhlIHNhbXBsZSBub25jZQ==", ""));
    assert!(!verify_key("anothernonce", "s3pPLMBiTxaQ9kYGzzhZRbK+xOo="));
}

#[test]
fn generated_key_is_base64_of_sixteen_bytes() {
    let key = gen_key();
    // 16 bytes of entropy encode to 24 base64 characters with padding.
    assert_eq!(key.len(), 24);
    assert!(key.ends_with('=') || key.chars().all(|c| c.is_ascii_alphanumeric() || c == '+'
        || c == '/'));
}
