use glide::error::SessionError;
use glide::frame::{decode_metadata, encode_metadata, TransferMetadata};

#[test]
fn metadata_encodes_name_colon_size() {
    let m = TransferMetadata { filename: "notes.txt".to_string(), size: 2500 };
    assert_eq!(encode_metadata(&m), "notes.txt:2500");
}

#[test]
fn metadata_of_zero_size() {
    let m = TransferMetadata { filename: "a".to_string(), size: 0 };
    assert_eq!(encode_metadata(&m), "a:0");
}

#[test]
fn metadata_decodes_and_trims_fields() {
    let m = decode_metadata(b" notes.txt : 42 \n").unwrap();
    assert_eq!(m.filename, "notes.txt");
    assert_eq!(m.size, 42);
}

#[test]
fn metadata_round_trips_largest_size() {
    let m = TransferMetadata { filename: "big file.bin".to_string(), size: u64::MAX };
    let text = encode_metadata(&m);
    assert_eq!(decode_metadata(text.as_bytes()), Ok(m));
}

#[test]
fn metadata_round_trips_unicode_name() {
    let m = TransferMetadata { filename: "résumé.pdf".to_string(), size: 7 };
    let text = encode_metadata(&m);
    assert_eq!(decode_metadata(text.as_bytes()), Ok(m));
}

#[test]
fn metadata_size_may_have_plus_sign() {
    assert_eq!(decode_metadata(b"a:+5").map(|m| m.size), Ok(5));
    assert_eq!(decode_metadata(b"a: +18446744073709551615").map(|m| m.size), Ok(u64::MAX));
    assert_eq!(decode_metadata(b"a:+"), Err(SessionError::MalformedFrame));
    assert_eq!(decode_metadata(b"a:++5"), Err(SessionError::MalformedFrame));
}

#[test]
fn metadata_without_colon_is_malformed() {
    assert_eq!(decode_metadata(b"notes.txt"), Err(SessionError::MalformedFrame));
}

#[test]
fn metadata_with_two_colons_is_malformed() {
    assert_eq!(decode_metadata(b"a:b:3"), Err(SessionError::MalformedFrame));
}

#[test]
fn metadata_with_bad_size_is_malformed() {
    assert_eq!(decode_metadata(b"a:12x"), Err(SessionError::MalformedFrame));
    assert_eq!(decode_metadata(b"a:"), Err(SessionError::MalformedFrame));
    assert_eq!(decode_metadata(b"a:-1"), Err(SessionError::MalformedFrame));
}

#[test]
fn metadata_with_oversized_number_is_malformed() {
    assert_eq!(decode_metadata(b"a:18446744073709551616"), Err(SessionError::MalformedFrame));
    assert_eq!(
        decode_metadata(b"a:18446744073709551615").map(|m| m.size),
        Ok(u64::MAX)
    );
}

#[test]
fn metadata_that_is_not_text_is_malformed() {
    assert_eq!(decode_metadata(&[0x61, 0x3a, 0xff, 0x31]), Err(SessionError::MalformedFrame));
}
