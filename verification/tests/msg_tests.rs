//! Round-trip tests for the embedded-header message family.

use sardine::message_types::{SrdAccept, SrdConfirm, SrdInitiate, SrdMessage, SrdOffer};
use sardine::messages::{
    SRD_ACCEPT_MSG_ID, SRD_CONFIRM_MSG_ID, SRD_INITIATE_MSG_ID, SRD_OFFER_MSG_ID, SRD_SIGNATURE,
};

#[test]
fn msg_tests_initiate_encoding() {
    let msg = SrdInitiate::new(2);
    assert_eq!(msg.get_id(), SRD_INITIATE_MSG_ID);

    let mut buffer: Vec<u8> = Vec::new();
    match msg.write_to(&mut buffer) {
        Ok(_) => (),
        Err(_) => assert!(false),
    };

    match <SrdInitiate as SrdMessage>::read_from(buffer.as_slice()) {
        Ok(x) => {
            assert_eq!(x.signature, SRD_SIGNATURE);
            assert_eq!(x, msg);
        }
        Err(_) => assert!(false),
    };
}

#[test]
fn msg_tests_offer_encoding() {
    let msg = SrdOffer::new(256, vec![0, 0], vec![0u8; 256], vec![0u8; 256], [0u8; 32]);
    assert_eq!(msg.get_id(), SRD_OFFER_MSG_ID);

    let mut buffer: Vec<u8> = Vec::new();
    match msg.write_to(&mut buffer) {
        Ok(_) => (),
        Err(_) => assert!(false),
    };

    match <SrdOffer as SrdMessage>::read_from(buffer.as_slice()) {
        Ok(x) => {
            assert_eq!(x.signature, SRD_SIGNATURE);
            assert_eq!(x, msg);
        }
        Err(_) => assert!(false),
    };
}

#[test]
fn msg_tests_accept_encoding() {
    let msg = SrdAccept::new(
        2,
        256,
        vec![0u8; 256],
        [0u8; 32],
        Some([0u8; 32]),
        &Vec::new(),
        &[0u8; 32],
    )
    .unwrap();
    assert_eq!(msg.get_id(), SRD_ACCEPT_MSG_ID);

    let mut buffer: Vec<u8> = Vec::new();
    match msg.write_to(&mut buffer) {
        Ok(_) => (),
        Err(_) => assert!(false),
    };

    match <SrdAccept as SrdMessage>::read_from(buffer.as_slice()) {
        Ok(x) => {
            assert_eq!(x.signature, SRD_SIGNATURE);
            assert_eq!(x, msg);
        }
        Err(_) => assert!(false),
    };
}

#[test]
fn msg_tests_confirm_encoding() {
    let msg = SrdConfirm::new(Some([0u8; 32]), &Vec::new(), &[0u8; 32]).unwrap();
    assert_eq!(msg.get_id(), SRD_CONFIRM_MSG_ID);

    let mut buffer: Vec<u8> = Vec::new();
    match msg.write_to(&mut buffer) {
        Ok(_) => (),
        Err(_) => assert!(false),
    };

    match <SrdConfirm as SrdMessage>::read_from(buffer.as_slice()) {
        Ok(x) => {
            assert_eq!(x.signature, SRD_SIGNATURE);
            assert_eq!(x, msg);
        }
        Err(_) => assert!(false),
    };
}

#[test]
fn srd_accept_accept_encoding() {
    let msg = SrdAccept::new(
        2,
        256,
        vec![0u8; 256],
        [0u8; 32],
        Some([0u8; 32]),
        &Vec::new(),
        &[0u8; 32],
    )
    .unwrap();
    assert_eq!(msg.get_id(), SRD_ACCEPT_MSG_ID);

    let mut buffer: Vec<u8> = Vec::new();
    match msg.write_to(&mut buffer) {
        Ok(_) => (),
        Err(_) => assert!(false),
    };

    match <SrdAccept as SrdMessage>::read_from(buffer.as_slice()) {
        Ok(x) => {
            assert_eq!(x.signature, SRD_SIGNATURE);
            assert_eq!(x, msg);
        }
        Err(_) => assert!(false),
    };
}
