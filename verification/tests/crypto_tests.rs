//! The trusted primitives against known answers, and the scheme helpers.

use sardine::cipher::Cipher;
use sardine::crypto::{fill_random, hmac_sha256, hmac_sha256_verify, modpow_bytes, sha256};
use sardine::errors::SrdError;
use sardine::now_auth::{NowAuthSrdConfirm, NowAuthSrdDelegate, NowAuthSrdLogonBlob, NowAuthSrdResult};
use sardine::scheme::{AuthenticateScheme, SrdAuthorizationScheme, WWWAuthenticate};

#[test]
fn sha256_known_answer() {
    let digest = sha256(b"abc");
    let expected: Vec<u8> = vec![
        0xba, 0x78, 0x16, 0xbf, 0x8f, 0x01, 0xcf, 0xea, 0x41, 0x41, 0x40, 0xde, 0x5d, 0xae, 0x22,
        0x23, 0xb0, 0x03, 0x61, 0xa3, 0x96, 0x17, 0x7a, 0x9c, 0xb4, 0x10, 0xff, 0x61, 0xf2, 0x00,
        0x15, 0xad,
    ];
    assert_eq!(digest, expected);
}

#[test]
fn hmac_sha256_known_answer() {
    // RFC 4231 test case 2: key "Jefe", data "what do ya want for nothing?".
    let tag = hmac_sha256(b"Jefe", b"what do ya want for nothing?");
    let expected: Vec<u8> = vec![
        0x5b, 0xdc, 0xc1, 0x46, 0xbf, 0x60, 0x75, 0x4e, 0x6a, 0x04, 0x24, 0x26, 0x08, 0x95, 0x75,
        0xc7, 0x5a, 0x00, 0x3f, 0x08, 0x9d, 0x27, 0x39, 0x83, 0x9d, 0xec, 0x58, 0xb9, 0x64, 0xec,
        0x38, 0x43,
    ];
    assert_eq!(tag, expected);
    assert!(hmac_sha256_verify(
        b"Jefe",
        b"what do ya want for nothing?",
        expected.as_slice()
    ));
    assert!(!hmac_sha256_verify(b"Jefe", b"what do ya want for nothing!", expected.as_slice()));
}

#[test]
fn modpow_small_values() {
    // 2^10 mod 1000 = 24
    let r = modpow_bytes(&[2], &[10], &[0x03, 0xe8]);
    assert_eq!(r, vec![24]);
    // 5^0 mod 7 = 1
    let r = modpow_bytes(&[5], &[], &[7]);
    assert_eq!(r, vec![1]);
    // 0^5 mod 7 = 0
    let r = modpow_bytes(&[], &[5], &[7]);
    assert_eq!(r, vec![0]);
}

#[test]
fn fill_random_keeps_length() {
    let mut buf = vec![0u8; 48];
    fill_random(&mut buf).unwrap();
    assert_eq!(buf.len(), 48);
    // 48 random bytes are not all zero, except with negligible chance.
    assert!(buf.iter().any(|b| *b != 0));
}

#[test]
fn chacha20_round_trip() {
    let key = vec![7u8; 32];
    let iv = vec![9u8; 32];
    let data = b"attack at dawn, bring the keys!".to_vec();
    let ct = Cipher::ChaCha20.encrypt_data(data.as_slice(), key.as_slice(), iv.as_slice()).unwrap();
    assert_eq!(ct.len(), data.len());
    assert_ne!(ct, data);
    let pt = Cipher::ChaCha20.decrypt_data(ct.as_slice(), key.as_slice(), iv.as_slice()).unwrap();
    assert_eq!(pt, data);
}

#[test]
fn xchacha20_round_trip() {
    let key = vec![3u8; 32];
    let iv = vec![1u8; 32];
    let data = vec![0xabu8; 100];
    let ct = Cipher::XChaCha20.encrypt_data(data.as_slice(), key.as_slice(), iv.as_slice()).unwrap();
    assert_eq!(ct.len(), data.len());
    assert_ne!(ct, data);
    let pt = Cipher::XChaCha20.decrypt_data(ct.as_slice(), key.as_slice(), iv.as_slice()).unwrap();
    assert_eq!(pt, data);
}

#[test]
fn aes256_round_trip_and_length_rule() {
    let key = vec![5u8; 32];
    let iv = vec![6u8; 32];
    let data = vec![0x11u8; 48];
    let ct = Cipher::AES256.encrypt_data(data.as_slice(), key.as_slice(), iv.as_slice()).unwrap();
    assert_eq!(ct.len(), 48);
    assert_ne!(ct, data);
    let pt = Cipher::AES256.decrypt_data(ct.as_slice(), key.as_slice(), iv.as_slice()).unwrap();
    assert_eq!(pt, data);

    let err = Cipher::AES256.encrypt_data(&data[..47], key.as_slice(), iv.as_slice()).unwrap_err();
    assert!(matches!(err, SrdError::InvalidDataLength));
    let err = Cipher::AES256.decrypt_data(&data[..47], key.as_slice(), iv.as_slice()).unwrap_err();
    assert!(matches!(err, SrdError::InvalidDataLength));
}

#[test]
fn cipher_flags_and_best() {
    assert_eq!(Cipher::AES256.flag(), 0x1);
    assert_eq!(Cipher::ChaCha20.flag(), 0x100);
    assert_eq!(Cipher::XChaCha20.flag(), 0x200);
    assert_eq!(Cipher::from_flags(0x301), vec![
        Cipher::AES256,
        Cipher::ChaCha20,
        Cipher::XChaCha20
    ]);
    assert_eq!(Cipher::from_flags(0), Vec::<Cipher>::new());
    assert_eq!(
        Cipher::best_cipher(&[Cipher::AES256, Cipher::ChaCha20, Cipher::XChaCha20]).unwrap(),
        Cipher::XChaCha20
    );
    assert_eq!(
        Cipher::best_cipher(&[Cipher::AES256, Cipher::ChaCha20]).unwrap(),
        Cipher::ChaCha20
    );
    assert_eq!(Cipher::best_cipher(&[Cipher::AES256]).unwrap(), Cipher::AES256);
    assert!(matches!(Cipher::best_cipher(&[]).unwrap_err(), SrdError::Cipher));
}

#[test]
fn authorization_scheme_round_trip() {
    let payload = SrdAuthorizationScheme { msg: vec![0x61, 0x62, 0x63] };
    let text = payload.fmt_scheme();
    assert_eq!(text, "YWJj");
    let parsed = SrdAuthorizationScheme::from_str(text.as_str()).unwrap();
    assert_eq!(parsed.msg, vec![0x61, 0x62, 0x63]);

    let err = SrdAuthorizationScheme::from_str("not base64 !!!").unwrap_err();
    assert!(matches!(err, SrdError::InvalidCstr));
}

#[test]
fn www_authenticate_header() {
    let header = WWWAuthenticate::new()
        .add_scheme(AuthenticateScheme::Srd, Some(vec![0x61, 0x62, 0x63]))
        .add_scheme(AuthenticateScheme::Srd, None);
    assert_eq!(header.get_msg(0), Some(vec![0x61, 0x62, 0x63]));
    assert_eq!(header.get_msg(1), None);
    assert_eq!(header.get_msg(2), None);
    assert_eq!(header.to_header_value(), "SRD YWJjSRD");
    assert_eq!(AuthenticateScheme::Srd.name(), "SRD");

    let lines: Vec<Vec<u8>> = vec![
        b"SRD YWJj".to_vec(),
        b"Basic xyz".to_vec(),
        b"SRDX not ours".to_vec(),
        b"SRD".to_vec(),
    ];
    let parsed = WWWAuthenticate::parse_header(&lines).unwrap();
    assert_eq!(parsed.0.len(), 2);
    assert_eq!(parsed.get_msg(0), Some(vec![0x61, 0x62, 0x63]));
    assert_eq!(parsed.get_msg(1), None);

    let none: Vec<Vec<u8>> = vec![b"Basic xyz".to_vec(), b"SRDX o".to_vec()];
    assert!(WWWAuthenticate::parse_header(&none).is_err());
}

#[test]
fn now_auth_mac_messages() {
    let ikey = vec![0x42u8; 32];
    let confirm = NowAuthSrdConfirm::new(Some([0xAA; 32]), ikey.as_slice()).unwrap();
    assert!(confirm.has_cbt());
    confirm.verify_mac(ikey.as_slice()).unwrap();
    let mut tampered = confirm;
    tampered.cbt[0] ^= 1;
    assert!(matches!(tampered.verify_mac(ikey.as_slice()).unwrap_err(), SrdError::InvalidMac));

    let result = NowAuthSrdResult::new(7, ikey.as_slice()).unwrap();
    result.verify_mac(ikey.as_slice()).unwrap();
    assert_eq!(result.status, 7);
}

#[test]
fn now_auth_logon_blob_crypto() {
    let key = vec![0x10u8; 32];
    let iv = vec![0x20u8; 32];
    let user = vec![0x61u8; 128];
    let pass = vec![0x62u8; 128];
    let blob =
        NowAuthSrdLogonBlob::new(user.as_slice(), pass.as_slice(), iv.as_slice(), key.as_slice())
            .unwrap();
    assert_ne!(blob.data[..128], user[..]);
    let plain = blob.decrypt_data(iv.as_slice(), key.as_slice()).unwrap();
    assert_eq!(plain[..128], user[..]);
    assert_eq!(plain[128..], pass[..]);

    let ikey = vec![0x99u8; 32];
    let delegate = NowAuthSrdDelegate::new(blob, ikey.as_slice()).unwrap();
    delegate.verify_mac(ikey.as_slice()).unwrap();
    let plain2 = delegate.get_data(iv.as_slice(), key.as_slice()).unwrap();
    assert_eq!(plain2[..], plain[..]);
}

#[test]
fn expand_start_pads_on_the_left() {
    let mut v = vec![1u8, 2, 3];
    sardine::codec::expand_start(&mut v, 6);
    assert_eq!(v, vec![0, 0, 0, 1, 2, 3]);
    sardine::codec::expand_start(&mut v, 4);
    assert_eq!(v, vec![0, 0, 0, 1, 2, 3]);
}

#[test]
fn error_descriptions() {
    assert_eq!(SrdError::InvalidMac.description(), "MAC error");
    assert_eq!(SrdError::Cipher.description(), "Cipher error");
    assert_eq!(
        SrdError::Proto(String::from("x")).description(),
        "Protocol error: x"
    );
}
