use kolab::crypto::{crypto_hash, random_token};
use kolab::objects::AssociatedImage;
use kolab::hex::{from_hex, to_hex};

#[test]
fn to_hex_spells_bytes_low_nibbles_last() {
    let bytes: Vec<u8> = vec![0x00, 0x01, 0x0f, 0x10, 0xab, 0xff];
    assert_eq!(to_hex(&bytes), "00010f10abff");
}

#[test]
fn to_hex_of_empty_is_empty() {
    let bytes: Vec<u8> = Vec::new();
    assert_eq!(to_hex(&bytes), "");
}

#[test]
fn from_hex_rejects_bad_length() {
    assert_eq!(from_hex("abcd"), Err("from_hex: bad hexadecimal string length"));
    assert_eq!(from_hex(""), Err("from_hex: bad hexadecimal string length"));
}

#[test]
fn from_hex_rejects_bad_digit() {
    let mut s = String::new();
    for _ in 0..63 {
        s.push('0');
    }
    s.push('g');
    assert_eq!(from_hex(&s), Err("from_hex: bad hexadecimal string"));
}

#[test]
fn from_hex_round_trips_to_hex() {
    let bytes: Vec<u8> = (0..32u8).map(|i| i.wrapping_mul(7).wrapping_add(3)).collect();
    let hex = to_hex(&bytes);
    assert_eq!(hex.len(), 64);
    assert_eq!(from_hex(&hex), Ok(bytes));
}

#[test]
fn from_hex_reads_uppercase() {
    let mut s = String::new();
    for _ in 0..62 {
        s.push('0');
    }
    s.push('A');
    s.push('B');
    let bytes = from_hex(&s).unwrap();
    assert_eq!(bytes[31], 0xab);
    assert_eq!(bytes[0], 0);
}

#[test]
fn crypto_hash_is_real_sha256() {
    // The SHA-256 digest of the empty string, spelled in lowercase hex.
    assert_eq!(
        crypto_hash(String::new()),
        "e3b0c44298fc1c149afbf4c8996fb92427ae41e4649b934ca495991b7852b855"
    );
    // A fixed, externally checkable vector.
    assert_eq!(
        crypto_hash("abc".to_string()),
        "ba7816bf8f01cfea414140de5dae2223b00361a396177a9cb410ff61f20015ad"
    );
}

#[test]
fn tokens_are_hex_strings() {
    let token = random_token();
    assert_eq!(token.len(), 64);
    assert!(token.chars().all(|c| c.is_ascii_hexdigit()));
}

#[test]
fn gradients_are_colour_codes() {
    match AssociatedImage::random_gradient() {
        AssociatedImage::Gradient(c1, c2) => {
            for colour in [c1, c2] {
                assert_eq!(colour.len(), 7);
                assert!(colour.starts_with('#'));
                assert!(colour[1..].chars().all(|c| c.is_ascii_hexdigit()));
            }
        },
        _ => panic!("unexpected image"),
    }
}
