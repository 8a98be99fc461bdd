use chachapoly::constant_time_eq;
use chachapoly::decrypt;
use chachapoly::derive_mac_key;
use chachapoly::encrypt;
use chachapoly::AeadError;

fn rfc_key() -> Vec<u8> {
    (0x80u8..=0x9f).collect()
}

fn rfc_nonce() -> Vec<u8> {
    vec![0x07, 0x00, 0x00, 0x00, 0x40, 0x41, 0x42, 0x43, 0x44, 0x45, 0x46, 0x47]
}

fn rfc_aad() -> Vec<u8> {
    vec![0x50, 0x51, 0x52, 0x53, 0xc0, 0xc1, 0xc2, 0xc3, 0xc4, 0xc5, 0xc6, 0xc7]
}

fn rfc_plaintext() -> Vec<u8> {
    b"Ladies and Gentlemen of the class of '99: If I could offer you \
only one tip for the future, sunscreen would be it."
        .to_vec()
}

fn rfc_ciphertext() -> Vec<u8> {
    vec![
        0xd3, 0x1a, 0x8d, 0x34, 0x64, 0x8e, 0x60, 0xdb, 0x7b, 0x86, 0xaf, 0xbc, 0x53, 0xef, 0x7e,
        0xc2, 0xa4, 0xad, 0xed, 0x51, 0x29, 0x6e, 0x08, 0xfe, 0xa9, 0xe2, 0xb5, 0xa7, 0x36, 0xee,
        0x62, 0xd6, 0x3d, 0xbe, 0xa4, 0x5e, 0x8c, 0xa9, 0x67, 0x12, 0x82, 0xfa, 0xfb, 0x69, 0xda,
        0x92, 0x72, 0x8b, 0x1a, 0x71, 0xde, 0x0a, 0x9e, 0x06, 0x0b, 0x29, 0x05, 0xd6, 0xa5, 0xb6,
        0x7e, 0xcd, 0x3b, 0x36, 0x92, 0xdd, 0xbd, 0x7f, 0x2d, 0x77, 0x8b, 0x8c, 0x98, 0x03, 0xae,
        0xe3, 0x28, 0x09, 0x1b, 0x58, 0xfa, 0xb3, 0x24, 0xe4, 0xfa, 0xd6, 0x75, 0x94, 0x55, 0x85,
        0x80, 0x8b, 0x48, 0x31, 0xd7, 0xbc, 0x3f, 0xf4, 0xde, 0xf0, 0x8e, 0x4b, 0x7a, 0x9d, 0xe5,
        0x76, 0xd2, 0x65, 0x86, 0xce, 0xc6, 0x4b, 0x61, 0x16,
    ]
}

fn rfc_tag() -> Vec<u8> {
    vec![
        0x1a, 0xe1, 0x0b, 0x59, 0x4f, 0x09, 0xe2, 0x6a, 0x7e, 0x90, 0x2e, 0xcb, 0xd0, 0x60, 0x06,
        0x91,
    ]
}

#[test]
fn rfc_vector_encrypt() {
    let (ct, tag) = encrypt(&rfc_key(), &rfc_nonce(), &rfc_aad(), &rfc_plaintext()).unwrap();
    assert_eq!(ct, rfc_ciphertext());
    assert_eq!(tag, rfc_tag());
}

#[test]
fn rfc_vector_decrypt() {
    let msg = decrypt(&rfc_key(), &rfc_nonce(), &rfc_aad(), &rfc_ciphertext(), &rfc_tag()).unwrap();
    assert_eq!(msg, rfc_plaintext());
}

#[test]
fn mac_key_matches_rfc_key_generation_vector() {
    let nonce = vec![0x00, 0x00, 0x00, 0x00, 0x00, 0x01, 0x02, 0x03, 0x04, 0x05, 0x06, 0x07];
    let mac_key = derive_mac_key(&rfc_key(), &nonce);
    let expected = vec![
        0x8a, 0xd5, 0xa0, 0x8b, 0x90, 0x5f, 0x81, 0xcc, 0x81, 0x50, 0x40, 0x27, 0x4a, 0xb2, 0x94,
        0x71, 0xa8, 0x33, 0xb6, 0x37, 0xe3, 0xfd, 0x0d, 0xa5, 0x08, 0xdb, 0xb8, 0xe2, 0xfd, 0xd1,
        0xa6, 0x46,
    ];
    assert_eq!(mac_key, expected);
}

#[test]
fn round_trip_various_sizes() {
    let key = rfc_key();
    let nonce = rfc_nonce();
    for msg_len in [0usize, 1, 15, 16, 17, 63, 64, 65, 130] {
        for aad_len in [0usize, 1, 12, 16, 33] {
            let msg: Vec<u8> = (0..msg_len).map(|i| (i * 7 + 3) as u8).collect();
            let aad: Vec<u8> = (0..aad_len).map(|i| (i * 13 + 1) as u8).collect();
            let (ct, tag) = encrypt(&key, &nonce, &aad, &msg).unwrap();
            assert_eq!(ct.len(), msg.len());
            let back = decrypt(&key, &nonce, &aad, &ct, &tag).unwrap();
            assert_eq!(back, msg);
        }
    }
}

#[test]
fn encrypt_is_deterministic() {
    let key = rfc_key();
    let nonce = rfc_nonce();
    let aad = rfc_aad();
    let msg = rfc_plaintext();
    let (ct1, tag1) = encrypt(&key, &nonce, &aad, &msg).unwrap();
    let (ct2, tag2) = encrypt(&key, &nonce, &aad, &msg).unwrap();
    assert_eq!(ct1, ct2);
    assert_eq!(tag1, tag2);
}

#[test]
fn any_tag_bit_flip_is_rejected() {
    let key = rfc_key();
    let nonce = rfc_nonce();
    let aad = b"header".to_vec();
    let msg = b"attack at dawn".to_vec();
    let (ct, tag) = encrypt(&key, &nonce, &aad, &msg).unwrap();
    for byte in 0..tag.len() {
        for bit in 0..8 {
            let mut bad = tag.clone();
            bad[byte] ^= 1u8 << bit;
            let r = decrypt(&key, &nonce, &aad, &ct, &bad);
            assert_eq!(r, Err(AeadError::AuthenticationFailure));
        }
    }
}

#[test]
fn any_ciphertext_bit_flip_is_rejected() {
    let key = rfc_key();
    let nonce = rfc_nonce();
    let aad = b"header".to_vec();
    let msg = b"attack at dawn".to_vec();
    let (ct, tag) = encrypt(&key, &nonce, &aad, &msg).unwrap();
    for byte in 0..ct.len() {
        for bit in 0..8 {
            let mut bad = ct.clone();
            bad[byte] ^= 1u8 << bit;
            let r = decrypt(&key, &nonce, &aad, &bad, &tag);
            assert_eq!(r, Err(AeadError::AuthenticationFailure));
        }
    }
}

#[test]
fn any_aad_bit_flip_is_rejected() {
    let key = rfc_key();
    let nonce = rfc_nonce();
    let aad = b"header".to_vec();
    let msg = b"attack at dawn".to_vec();
    let (ct, tag) = encrypt(&key, &nonce, &aad, &msg).unwrap();
    for byte in 0..aad.len() {
        for bit in 0..8 {
            let mut bad = aad.clone();
            bad[byte] ^= 1u8 << bit;
            let r = decrypt(&key, &nonce, &bad, &ct, &tag);
            assert_eq!(r, Err(AeadError::AuthenticationFailure));
        }
    }
}

#[test]
fn wrong_length_tag_is_rejected() {
    let key = rfc_key();
    let nonce = rfc_nonce();
    let aad = rfc_aad();
    let msg = rfc_plaintext();
    let (ct, tag) = encrypt(&key, &nonce, &aad, &msg).unwrap();
    let short = &tag[0..15];
    assert_eq!(decrypt(&key, &nonce, &aad, &ct, short), Err(AeadError::AuthenticationFailure));
    assert_eq!(decrypt(&key, &nonce, &aad, &ct, &[]), Err(AeadError::AuthenticationFailure));
}

#[test]
fn ciphertext_differs_from_plaintext() {
    let key = rfc_key();
    let nonce = rfc_nonce();
    let msg = b"0123456789abcdef".to_vec();
    let (ct, _) = encrypt(&key, &nonce, &[], &msg).unwrap();
    assert_ne!(ct, msg);
}

#[test]
fn constant_time_eq_agrees_with_equality() {
    assert!(constant_time_eq(&[], &[]));
    assert!(constant_time_eq(&[1, 2, 3], &[1, 2, 3]));
    assert!(!constant_time_eq(&[1, 2, 3], &[0, 2, 3]));
    assert!(!constant_time_eq(&[1, 2, 3], &[1, 2, 4]));
    assert!(!constant_time_eq(&[1, 2, 3], &[1, 2]));
    assert!(!constant_time_eq(&[], &[0]));
}
