//! Tests for the padding codec and the canonical metadata serialization.

use steelsafe::aad::{build_aad, Timestamp};
use steelsafe::error::Error;
use steelsafe::pad::{pad, unpad, PADDING_BLOCK_SIZE};

#[test]
fn padding_round_trips_at_block_boundaries() {
    for len in [0, 1, 255, 256, 257, 511, 512, 513] {
        let data: Vec<u8> = (0..len).map(|i| (i % 251) as u8).collect();
        let padded = pad(&data);
        assert!(padded.len() > data.len(), "padded length not strictly greater at {len}");
        assert_eq!(padded.len() % PADDING_BLOCK_SIZE, 0, "padded length not a multiple at {len}");
        assert_eq!(padded.len(), (len / PADDING_BLOCK_SIZE + 1) * PADDING_BLOCK_SIZE);
        let unpadded = unpad(&padded).expect("padded buffer must unpad");
        assert_eq!(unpadded, data);
    }
}

#[test]
fn padding_has_exact_shape() {
    let padded = pad(b"hi");
    assert_eq!(padded.len(), 256);
    assert_eq!(&padded[..3], b"hi\x80");
    assert!(padded[3..].iter().all(|&b| b == 0));

    // A plaintext of exactly one block still gets a full extra block.
    let block = vec![0x7f_u8; 256];
    let padded = pad(&block);
    assert_eq!(padded.len(), 512);
    assert_eq!(&padded[..256], block.as_slice());
    assert_eq!(padded[256], 0x80);
    assert!(padded[257..].iter().all(|&b| b == 0));
}

#[test]
fn unpad_rejects_malformed_buffers() {
    // All zeros: no marker under the zero fill.
    assert!(matches!(unpad(&[0u8; 256]), Err(Error::Unpad)));
    // Empty buffer.
    assert!(matches!(unpad(&[]), Err(Error::Unpad)));
    // The byte under the zero fill is not the marker.
    assert!(matches!(unpad(b"payload\x7f\x00\x00"), Err(Error::Unpad)));
    // A lone marker is the padded form of the empty string.
    assert_eq!(unpad(&[0x80u8]).expect("lone marker must unpad"), Vec::<u8>::new());
}

#[test]
fn aad_serialization_is_canonical() {
    let ts = Timestamp { year: 2024, month: 1, day: 1, hour: 0, minute: 0, second: 0 };

    let aad = build_aad(b"email", Some(b"bob@example.com"), ts);
    assert_eq!(
        aad.as_slice(),
        br#"{"account":"bob@example.com","label":"email","last_modified_at":"2024-01-01T00:00:00Z"}"#
            .as_slice(),
    );

    // An absent account serializes as null.
    let aad = build_aad(b"email", None, ts);
    assert_eq!(
        aad.as_slice(),
        br#"{"account":null,"label":"email","last_modified_at":"2024-01-01T00:00:00Z"}"#
            .as_slice(),
    );

    // Quotes, backslashes and control bytes are escaped.
    let aad = build_aad(b"a\"b\\c\x01", None, ts);
    assert_eq!(
        aad.as_slice(),
        b"{\"account\":null,\"label\":\"a\\\"b\\\\c\\u0001\",\"last_modified_at\":\"2024-01-01T00:00:00Z\"}"
            .as_slice(),
    );

    // The timestamp rendering pads every field to fixed width.
    let ts = Timestamp { year: 987, month: 12, day: 31, hour: 23, minute: 59, second: 5 };
    let aad = build_aad(b"x", None, ts);
    assert_eq!(
        aad.as_slice(),
        br#"{"account":null,"label":"x","last_modified_at":"0987-12-31T23:59:05Z"}"#.as_slice(),
    );
}

#[test]
fn identical_metadata_serializes_identically() {
    let ts = Timestamp { year: 2026, month: 10, day: 11, hour: 1, minute: 2, second: 3 };
    let first = build_aad(b"some label", Some(b"some account"), ts);
    let second = build_aad(b"some label", Some(b"some account"), ts);
    assert_eq!(first, second);

    // Any changed field changes the bytes.
    assert_ne!(first, build_aad(b"some labeL", Some(b"some account"), ts));
    assert_ne!(first, build_aad(b"some label", Some(b"some accounT"), ts));
    assert_ne!(first, build_aad(b"some label", None, ts));
    let other_ts = Timestamp { second: 4, ..ts };
    assert_ne!(first, build_aad(b"some label", Some(b"some account"), other_ts));
}
