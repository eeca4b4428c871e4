use hashline_transaction::digest::decode_hex_nibble;
use hashline_transaction::digest::decode_sha256_hex;
use hashline_transaction::digest::ExactBytesDigest;
use hashline_transaction::digest::MetadataFingerprint;
use hashline_transaction::observation::MetadataSnapshot;

#[test]
fn exact_digest_distinguishes_raw_byte_representation() {
    assert_ne!(
        ExactBytesDigest::new(b"line\n"),
        ExactBytesDigest::new(b"line\r\n")
    );
    assert_ne!(
        ExactBytesDigest::new(b"line\n"),
        ExactBytesDigest::new(b"\xef\xbb\xbfline\n")
    );
}

#[test]
fn exact_digest_uses_a_fixed_width_hex_wire_representation() {
    let digest = ExactBytesDigest::new(b"exact bytes");
    let encoded = String::from_utf8(digest.hex_bytes()).unwrap();
    assert_eq!(encoded.len(), 64);
    assert!(encoded
        .bytes()
        .all(|b| b.is_ascii_digit() || (b'a'..=b'f').contains(&b)));

    let uppercase = encoded.to_uppercase();
    let decoded = decode_sha256_hex(&uppercase).map(ExactBytesDigest::from_array);
    assert_eq!(decoded, Some(digest));

    assert_eq!(decode_sha256_hex("abcd"), None);
    assert_eq!(decode_sha256_hex(&"g".repeat(64)), None);
}

#[test]
fn sha256_of_known_input() {
    let digest = ExactBytesDigest::new(b"abc");
    assert_eq!(
        String::from_utf8(digest.hex_bytes()).unwrap(),
        "ba7816bf8f01cfea414140de5dae2223b00361a396177a9cb410ff61f20015ad"
    );
    assert_eq!(digest.as_bytes()[0], 0xba);
    assert_eq!(ExactBytesDigest::from_array(*digest.as_bytes()), digest);
}

#[test]
fn hex_nibbles_accept_both_cases() {
    assert_eq!(decode_hex_nibble(b'0'), Some(0));
    assert_eq!(decode_hex_nibble(b'9'), Some(9));
    assert_eq!(decode_hex_nibble(b'a'), Some(10));
    assert_eq!(decode_hex_nibble(b'F'), Some(15));
    assert_eq!(decode_hex_nibble(b'g'), None);
}

#[test]
fn metadata_snapshot_fingerprints_its_value() {
    let snapshot = MetadataSnapshot::new("ns".to_string(), b"mode=0644".to_vec());
    assert_eq!(
        snapshot.fingerprint.as_bytes(),
        MetadataFingerprint::new(b"mode=0644").as_bytes()
    );
    let other = MetadataSnapshot::new("ns".to_string(), b"mode=0600".to_vec());
    assert_ne!(snapshot.fingerprint, other.fingerprint);
}
