//! End-to-end handshakes between an in-memory client and server, and the
//! failure modes the protocol promises.

use sardine::blobs::{BasicBlob, SrdBlob};
use sardine::cipher::Cipher;
use sardine::errors::SrdError;
use sardine::srd::Srd;

/// Drive both sides until the client finishes; returns the client's last
/// outbound message (the Delegate, or empty when skipped).
fn run_handshake(client: &mut Srd, server: &mut Srd) -> Result<(), SrdError> {
    let mut initiate: Vec<u8> = Vec::new();
    client.authenticate(&[], &mut initiate)?;
    let mut offer: Vec<u8> = Vec::new();
    server.authenticate(initiate.as_slice(), &mut offer)?;
    let mut accept: Vec<u8> = Vec::new();
    client.authenticate(offer.as_slice(), &mut accept)?;
    let mut confirm: Vec<u8> = Vec::new();
    let server_done = server.authenticate(accept.as_slice(), &mut confirm)?;
    let mut delegate: Vec<u8> = Vec::new();
    let client_done = client.authenticate(confirm.as_slice(), &mut delegate)?;
    assert!(client_done);
    if !server_done {
        let mut sink: Vec<u8> = Vec::new();
        let done = server.authenticate(delegate.as_slice(), &mut sink)?;
        assert!(done);
        assert!(sink.is_empty());
    } else {
        assert!(delegate.is_empty());
    }
    Ok(())
}

#[test]
fn happy_path_xchacha() {
    let mut client = Srd::new(false, false);
    let mut server = Srd::new(true, false);
    client.set_ciphers(vec![Cipher::XChaCha20]).unwrap();
    server.set_ciphers(vec![Cipher::XChaCha20]).unwrap();
    client.set_raw_blob(SrdBlob::new("Basic", b"alice:hunter2"));

    run_handshake(&mut client, &mut server).unwrap();

    assert_eq!(client.get_delegation_key(), server.get_delegation_key());
    assert_eq!(client.get_integrity_key(), server.get_integrity_key());
    assert_eq!(client.get_cipher(), Cipher::XChaCha20);
    assert_eq!(server.get_cipher(), Cipher::XChaCha20);

    let blob = server.get_raw_blob().unwrap();
    assert_eq!(blob.blob_type(), "Basic");
    assert_eq!(blob.data(), b"alice:hunter2");

    let basic: BasicBlob = server.get_blob::<BasicBlob>().unwrap().unwrap();
    assert_eq!(basic.get_username(), "alice");
    assert_eq!(basic.get_password(), "hunter2");
}

#[test]
fn happy_path_aes() {
    let mut client = Srd::new(false, false);
    let mut server = Srd::new(true, false);
    client.set_ciphers(vec![Cipher::AES256]).unwrap();
    server.set_ciphers(vec![Cipher::AES256]).unwrap();
    client.set_raw_blob(SrdBlob::new("Text", b"hello over cbc!!"));

    run_handshake(&mut client, &mut server).unwrap();

    assert_eq!(client.get_delegation_key(), server.get_delegation_key());
    assert_eq!(client.get_cipher(), Cipher::AES256);
    let blob = server.get_raw_blob().unwrap();
    assert_eq!(blob.blob_type(), "Text");
    assert_eq!(blob.data(), b"hello over cbc!!");
}

#[test]
fn cbt_both_sides() {
    let mut client = Srd::new(false, false);
    let mut server = Srd::new(true, false);
    client.set_cert_data(vec![0xAA; 64]).unwrap();
    server.set_cert_data(vec![0xAA; 64]).unwrap();
    client.set_raw_blob(SrdBlob::new("Basic", b"alice:hunter2"));

    run_handshake(&mut client, &mut server).unwrap();

    assert_eq!(client.get_delegation_key(), server.get_delegation_key());
    assert_eq!(client.get_integrity_key(), server.get_integrity_key());
    assert_eq!(client.get_delegation_key().len(), 32);
}

#[test]
fn cbt_mismatch_fails_on_server() {
    let mut client = Srd::new(false, false);
    let mut server = Srd::new(true, false);
    client.set_cert_data(vec![0xAA; 64]).unwrap();
    server.set_cert_data(vec![0xBB; 64]).unwrap();
    client.set_raw_blob(SrdBlob::new("Basic", b"alice:hunter2"));

    let mut initiate: Vec<u8> = Vec::new();
    client.authenticate(&[], &mut initiate).unwrap();
    let mut offer: Vec<u8> = Vec::new();
    server.authenticate(initiate.as_slice(), &mut offer).unwrap();
    let mut accept: Vec<u8> = Vec::new();
    client.authenticate(offer.as_slice(), &mut accept).unwrap();
    let mut confirm: Vec<u8> = Vec::new();
    let err = server.authenticate(accept.as_slice(), &mut confirm).unwrap_err();
    assert!(matches!(err, SrdError::InvalidCbt));
}

#[test]
fn cipher_disjoint_fails_on_client() {
    let mut client = Srd::new(false, false);
    let mut server = Srd::new(true, false);
    client.set_ciphers(vec![Cipher::AES256]).unwrap();
    server.set_ciphers(vec![Cipher::ChaCha20]).unwrap();
    client.set_raw_blob(SrdBlob::new("Basic", b"alice:hunter2"));

    let mut initiate: Vec<u8> = Vec::new();
    client.authenticate(&[], &mut initiate).unwrap();
    let mut offer: Vec<u8> = Vec::new();
    server.authenticate(initiate.as_slice(), &mut offer).unwrap();
    let mut accept: Vec<u8> = Vec::new();
    let err = client.authenticate(offer.as_slice(), &mut accept).unwrap_err();
    assert!(matches!(err, SrdError::Cipher));
}

#[test]
fn empty_cipher_set_fails_at_first_step() {
    let mut client = Srd::new(false, false);
    client.set_ciphers(Vec::new()).unwrap();
    let mut out: Vec<u8> = Vec::new();
    let err = client.authenticate(&[], &mut out).unwrap_err();
    assert!(matches!(err, SrdError::Cipher));

    let mut client2 = Srd::new(false, false);
    let mut server = Srd::new(true, false);
    server.set_ciphers(Vec::new()).unwrap();
    let mut initiate: Vec<u8> = Vec::new();
    client2.authenticate(&[], &mut initiate).unwrap();
    let mut offer: Vec<u8> = Vec::new();
    let err = server.authenticate(initiate.as_slice(), &mut offer).unwrap_err();
    assert!(matches!(err, SrdError::Cipher));
}

#[test]
fn bad_key_size_rejected() {
    let err = sardine::messages::new_srd_initiate_msg(0, 0x200, 300).unwrap_err();
    assert!(matches!(err, SrdError::InvalidKeySize));

    // A crafted Initiate carrying an illegal key size is refused by the
    // server as it parses the message.
    let msg = sardine::messages::new_srd_initiate_msg(0, 0x200, 256).unwrap();
    let mut bytes: Vec<u8> = Vec::new();
    sardine::messages::SrdMessage::write_to(&msg, &mut bytes).unwrap();
    bytes[12] = 0x2c;
    bytes[13] = 0x01;
    let mut server = Srd::new(true, false);
    let mut offer: Vec<u8> = Vec::new();
    let err = server.authenticate(bytes.as_slice(), &mut offer).unwrap_err();
    assert!(matches!(err, SrdError::InvalidKeySize));
}

#[test]
fn skip_delegation_round() {
    let mut client = Srd::new(false, true);
    let mut server = Srd::new(true, true);

    let mut initiate: Vec<u8> = Vec::new();
    client.authenticate(&[], &mut initiate).unwrap();
    let mut offer: Vec<u8> = Vec::new();
    server.authenticate(initiate.as_slice(), &mut offer).unwrap();
    let mut accept: Vec<u8> = Vec::new();
    client.authenticate(offer.as_slice(), &mut accept).unwrap();
    let mut confirm: Vec<u8> = Vec::new();
    let server_done = server.authenticate(accept.as_slice(), &mut confirm).unwrap();
    assert!(server_done);

    // The Confirm carries the SKIP flag.
    let parsed = sardine::messages::SrdMessage::read_from(confirm.as_slice()).unwrap();
    assert!(parsed.has_skip());

    let mut delegate: Vec<u8> = Vec::new();
    let client_done = client.authenticate(confirm.as_slice(), &mut delegate).unwrap();
    assert!(client_done);
    assert!(delegate.is_empty());

    assert_eq!(client.get_delegation_key(), server.get_delegation_key());
    assert_eq!(client.get_integrity_key(), server.get_integrity_key());
    assert!(server.get_raw_blob().is_none());
}

#[test]
fn tampered_accept_fails_mac() {
    let mut client = Srd::new(false, false);
    let mut server = Srd::new(true, false);
    client.set_raw_blob(SrdBlob::new("Basic", b"alice:hunter2"));

    let mut initiate: Vec<u8> = Vec::new();
    client.authenticate(&[], &mut initiate).unwrap();
    let mut offer: Vec<u8> = Vec::new();
    server.authenticate(initiate.as_slice(), &mut offer).unwrap();
    let mut accept: Vec<u8> = Vec::new();
    client.authenticate(offer.as_slice(), &mut accept).unwrap();

    // Flip one bit inside the client's public key.
    accept[20] ^= 0x01;
    let mut confirm: Vec<u8> = Vec::new();
    let err = server.authenticate(accept.as_slice(), &mut confirm).unwrap_err();
    assert!(matches!(err, SrdError::InvalidMac));
}

#[test]
fn tampered_confirm_fails_mac() {
    let mut client = Srd::new(false, false);
    let mut server = Srd::new(true, false);
    client.set_raw_blob(SrdBlob::new("Basic", b"alice:hunter2"));

    let mut initiate: Vec<u8> = Vec::new();
    client.authenticate(&[], &mut initiate).unwrap();
    let mut offer: Vec<u8> = Vec::new();
    server.authenticate(initiate.as_slice(), &mut offer).unwrap();
    let mut accept: Vec<u8> = Vec::new();
    client.authenticate(offer.as_slice(), &mut accept).unwrap();
    let mut confirm: Vec<u8> = Vec::new();
    server.authenticate(accept.as_slice(), &mut confirm).unwrap();

    // Flip one bit inside the server's CBT field.
    confirm[10] ^= 0x80;
    let mut delegate: Vec<u8> = Vec::new();
    let err = client.authenticate(confirm.as_slice(), &mut delegate).unwrap_err();
    assert!(matches!(err, SrdError::InvalidMac));
}

#[test]
fn tampered_delegate_fails_mac_before_decrypt() {
    let mut client = Srd::new(false, false);
    let mut server = Srd::new(true, false);
    client.set_raw_blob(SrdBlob::new("Basic", b"alice:hunter2"));

    let mut initiate: Vec<u8> = Vec::new();
    client.authenticate(&[], &mut initiate).unwrap();
    let mut offer: Vec<u8> = Vec::new();
    server.authenticate(initiate.as_slice(), &mut offer).unwrap();
    let mut accept: Vec<u8> = Vec::new();
    client.authenticate(offer.as_slice(), &mut accept).unwrap();
    let mut confirm: Vec<u8> = Vec::new();
    server.authenticate(accept.as_slice(), &mut confirm).unwrap();
    let mut delegate: Vec<u8> = Vec::new();
    client.authenticate(confirm.as_slice(), &mut delegate).unwrap();

    // Flip one byte of the encrypted blob in transit.
    delegate[20] ^= 0xff;
    let mut sink: Vec<u8> = Vec::new();
    let err = server.authenticate(delegate.as_slice(), &mut sink).unwrap_err();
    assert!(matches!(err, SrdError::InvalidMac));
    assert!(server.get_raw_blob().is_none());
}

#[test]
fn session_is_single_use() {
    let mut client = Srd::new(false, false);
    let mut server = Srd::new(true, false);
    client.set_raw_blob(SrdBlob::new("Basic", b"alice:hunter2"));
    run_handshake(&mut client, &mut server).unwrap();

    let mut out: Vec<u8> = Vec::new();
    let err = client.authenticate(&[], &mut out).unwrap_err();
    assert!(matches!(err, SrdError::BadSequence));
    let mut out2: Vec<u8> = Vec::new();
    let err = server.authenticate(&[], &mut out2).unwrap_err();
    assert!(matches!(err, SrdError::BadSequence));
}

#[test]
fn key_size_512_group() {
    // The wider group negotiates and agrees just the same.
    let mut client = Srd::new(false, false);
    let mut server = Srd::new(true, false);
    client.set_key_size(512).unwrap();
    client.set_raw_blob(SrdBlob::new("Basic", b"alice:hunter2"));
    run_handshake(&mut client, &mut server).unwrap();
    assert_eq!(client.get_delegation_key(), server.get_delegation_key());
}

#[test]
fn key_size_rejects_others() {
    let mut client = Srd::new(false, false);
    assert!(matches!(client.set_key_size(300).unwrap_err(), SrdError::InvalidKeySize));
    assert!(matches!(client.set_key_size(0).unwrap_err(), SrdError::InvalidKeySize));
    client.set_key_size(1024).unwrap();
    client.set_key_size(256).unwrap();
}

#[test]
fn two_phase_output_stash() {
    let mut client = Srd::new(false, false);
    let mut out: Vec<u8> = Vec::new();
    client.authenticate(&[], &mut out).unwrap();
    assert!(client.get_output_data().is_none());
    client.set_output_data(out.clone());
    assert_eq!(client.get_output_data().as_ref().unwrap(), &out);
}

#[test]
fn bulk_encrypt_round_trip() {
    let mut client = Srd::new(false, false);
    let mut server = Srd::new(true, false);
    client.set_raw_blob(SrdBlob::new("Basic", b"alice:hunter2"));
    run_handshake(&mut client, &mut server).unwrap();

    let data = vec![0x42u8; 64];
    let sealed = client.encrypt_data(data.as_slice()).unwrap();
    assert_eq!(sealed.len(), 96);
    assert_ne!(&sealed[32..], data.as_slice());
    let opened = server.decrypt_data(sealed.as_slice()).unwrap();
    assert_eq!(opened, data);

    // Unaligned input is refused up front.
    let err = client.encrypt_data(&data[..63]).unwrap_err();
    assert!(matches!(err, SrdError::InvalidDataLength));
}
