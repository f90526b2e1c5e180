use sha1_hash::{bytes_to_hex, digest, hex_digest};

#[test]
fn test_empty_message() {
    assert_eq!(hex_digest(b""), "da39a3ee5e6b4b0d3255bfef95601890afd80709");
}

#[test]
fn test_single_block() {
    assert_eq!(
        hex_digest("SHA-1".as_bytes()),
        "c571b86549e49bf223cf648388c46288c2241b5a"
    );
}

#[test]
fn test_multiple_blocks() {
    let message = "In cryptography, SHA-1 (Secure Hash Algorithm 1) is a hash function";
    assert_eq!(
        hex_digest(message.as_bytes()),
        "5106fcd6b2f5b09cc7e6b2d76a93578d74ef4755"
    );
}

#[test]
fn test_multiple_chunks() {
    let message = "In cryptography, SHA-1 (Secure Hash Algorithm 1) is a hash function which takes an input and produces a 160-bit (20-byte) hash value known as a message digest – typically rendered as 40 hexadecimal digits. It was designed by the United States National Security Agency, and is a U.S. Federal Information Processing Standard.The algorithm has been cryptographically broken but is still widely used.";
    assert_eq!(
        hex_digest(message.as_bytes()),
        "e85bf139b96daa8af5ef79d8825a57fe39335016"
    );
}

#[test]
fn test_abc() {
    assert_eq!(hex_digest(b"abc"), "a9993e364706816aba3e25717850c26c9cd0d89d");
}

#[test]
fn test_digest_bytes_abc() {
    let expected: [u8; 20] = [
        0xa9, 0x99, 0x3e, 0x36, 0x47, 0x06, 0x81, 0x6a, 0xba, 0x3e, 0x25, 0x71, 0x78, 0x50, 0xc2,
        0x6c, 0x9c, 0xd0, 0xd8, 0x9d,
    ];
    assert_eq!(digest(b"abc"), expected.to_vec());
}

#[test]
fn test_padding_boundary() {
    // 55 bytes: the 0x80 byte lands exactly on the length-field boundary,
    // so the padded message is a single block with no zero run.
    let fits = vec![b'A'; 55];
    assert_eq!(hex_digest(&fits), "5021b3d42aa093bffc34eedd7a1455f3624bc552");
    // 56 bytes: appending 0x80 overflows past 448 mod 512, so the padding
    // spills into a second block.
    let spills = vec![b'A'; 56];
    assert_eq!(hex_digest(&spills), "6b45e3cf1eb3324b9fd4df3b83d89c4c2c4ca896");
    // 64 bytes: a message of exactly one block size.
    let full = vec![b'A'; 64];
    assert_eq!(hex_digest(&full), "30b86e44e6001403827a62c58b08893e77cf121f");
}

#[test]
fn test_output_well_formed() {
    let messages: Vec<Vec<u8>> = vec![
        vec![],
        b"x".to_vec(),
        b"hello world".to_vec(),
        vec![0u8; 100],
        vec![0xffu8; 200],
        (0u8..=255u8).collect(),
    ];
    for message in messages {
        let hash = hex_digest(&message);
        assert_eq!(hash.len(), 40);
        assert!(hash.chars().all(|c| c.is_ascii_hexdigit() && !c.is_ascii_uppercase()));
    }
}

#[test]
fn test_determinism() {
    let message = b"the same bytes, hashed twice";
    assert_eq!(hex_digest(message), hex_digest(message));
    assert_eq!(digest(message), digest(message));
}

#[test]
fn test_avalanche() {
    let message = b"avalanche sensitivity smoke test".to_vec();
    let original = hex_digest(&message);
    for i in 0..message.len() {
        let mut changed = message.clone();
        changed[i] ^= 0x01;
        assert_ne!(hex_digest(&changed), original, "byte {} changed", i);
    }
}

#[test]
fn test_hex_leading_zeros() {
    assert_eq!(
        bytes_to_hex(&[0u8; 20]),
        "0000000000000000000000000000000000000000"
    );
    assert_eq!(bytes_to_hex(&[0x00, 0x01, 0x0a, 0xff]), "00010aff");
    assert_eq!(bytes_to_hex(&[]), "");
    assert_eq!(bytes_to_hex(&[0xab, 0xcd, 0xef]), "abcdef");
}
