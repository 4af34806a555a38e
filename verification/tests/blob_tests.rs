//! Blob codec round trips and failure modes.

use sardine::blobs::{BasicBlob, Blob, LogonBlob, SrdBlob, TextBlob};
use sardine::errors::SrdError;

#[test]
fn blob_encoding() {
    let srd_blob = SrdBlob::new("Basic", &vec![0, 1, 2, 3]);

    let mut buffer: Vec<u8> = Vec::new();
    match srd_blob.write_to(&mut buffer) {
        Ok(_) => (),
        Err(_) => assert!(false),
    };

    match SrdBlob::read_from(buffer.as_slice()) {
        Ok(blob) => {
            assert_eq!(blob, srd_blob);
        }
        Err(_) => assert!(false),
    };
}

#[test]
fn srd_blob_blob_encoding() {
    let srd_blob = SrdBlob::new("Basic", &vec![0, 1, 2, 3]);

    let mut buffer: Vec<u8> = Vec::new();
    match srd_blob.write_to(&mut buffer) {
        Ok(_) => (),
        Err(_) => assert!(false),
    };

    match SrdBlob::read_from(buffer.as_slice()) {
        Ok(blob) => {
            assert_eq!(blob, srd_blob);
        }
        Err(_) => assert!(false),
    };
}

#[test]
fn blob_alignment_and_padding() {
    // header + tag 16-aligned, data padded to 16; total a multiple of 16.
    let b = SrdBlob::new("Logon", &vec![7u8; 20]);
    let mut buffer: Vec<u8> = Vec::new();
    b.write_to(&mut buffer).unwrap();
    assert_eq!(buffer.len() % 16, 0);
    // type_size = 6, type_padding = 16 - (14 % 16) = 2, data 20, pad 12.
    assert_eq!(buffer.len(), 8 + 6 + 2 + 20 + 12);
}

#[test]
fn blob_rejects_short_input() {
    let err = SrdBlob::read_from(&[1, 2, 3]).unwrap_err();
    assert!(matches!(err, SrdError::InvalidDataLength));
}

#[test]
fn blob_rejects_zero_type_size() {
    let bytes = vec![0u8; 64];
    let err = SrdBlob::read_from(bytes.as_slice()).unwrap_err();
    assert!(matches!(err, SrdError::InvalidDataLength));
}

#[test]
fn basic_blob_round_trip() {
    let blob = BasicBlob::new("alice", "hunter2");
    let mut buffer: Vec<u8> = Vec::new();
    blob.write_to(&mut buffer).unwrap();
    assert_eq!(buffer, b"alice:hunter2");
    let parsed = BasicBlob::parse(buffer.as_slice()).unwrap();
    assert_eq!(parsed.get_username(), "alice");
    assert_eq!(parsed.get_password(), "hunter2");
}

#[test]
fn basic_blob_needs_exactly_one_separator() {
    let err = BasicBlob::parse(b"alice").unwrap_err();
    assert!(matches!(err, SrdError::BlobFormatError));
    let err = BasicBlob::parse(b"a:b:c").unwrap_err();
    assert!(matches!(err, SrdError::BlobFormatError));
}

#[test]
fn logon_blob_round_trip() {
    let blob = LogonBlob::new("alice", "hunter2");
    let mut buffer: Vec<u8> = Vec::new();
    blob.write_to(&mut buffer).unwrap();
    // u16 ulen, u16 plen, user, 0, pass, 0
    assert_eq!(buffer[0], 5);
    assert_eq!(buffer[2], 7);
    assert_eq!(buffer.len(), 4 + 5 + 1 + 7 + 1);
    let parsed = LogonBlob::parse(buffer.as_slice()).unwrap();
    assert_eq!(parsed.get_username(), "alice");
    assert_eq!(parsed.get_password(), "hunter2");
}

#[test]
fn logon_blob_unicode_round_trip() {
    let blob = LogonBlob::new("ünïcødé", "pâss wörd");
    let mut buffer: Vec<u8> = Vec::new();
    blob.write_to(&mut buffer).unwrap();
    let parsed = LogonBlob::parse(buffer.as_slice()).unwrap();
    assert_eq!(parsed.get_username(), "ünïcødé");
    assert_eq!(parsed.get_password(), "pâss wörd");
}

#[test]
fn text_blob_round_trip() {
    let blob = TextBlob::new("free-form text");
    let mut buffer: Vec<u8> = Vec::new();
    blob.write_to(&mut buffer).unwrap();
    assert_eq!(buffer, b"free-form text");
    let parsed = TextBlob::parse(buffer.as_slice()).unwrap();
    assert_eq!(parsed.get_text(), "free-form text");
}

#[test]
fn text_blob_rejects_invalid_utf8() {
    let err = TextBlob::parse(&[0xff, 0xfe, 0x41]).unwrap_err();
    assert!(matches!(err, SrdError::InvalidCstr));
}

#[test]
fn blob_type_accessors() {
    let b = SrdBlob::new("Custom", &[9, 9]);
    assert_eq!(b.blob_type(), "Custom");
    assert_eq!(b.blob_type_copy(), "Custom");
    assert_eq!(b.data(), &[9, 9]);
    assert_eq!(b.data_copy(), vec![9, 9]);
    assert_eq!(<BasicBlob as Blob>::blob_type(), "Basic");
    assert_eq!(<LogonBlob as Blob>::blob_type(), "Logon");
    assert_eq!(<TextBlob as Blob>::blob_type(), "Text");
}
