//! Round-trip tests for the current message family and for the short-lived
//! revision that preceded it.

use sardine::messages::{
    new_srd_accept_msg, new_srd_confirm_msg, new_srd_initiate_msg, new_srd_offer_msg, Message,
    SrdMessage, SRD_ACCEPT_MSG_ID, SRD_CONFIRM_MSG_ID, SRD_INITIATE_MSG_ID, SRD_OFFER_MSG_ID,
    SRD_SIGNATURE,
};
use sardine::packets::SrdMessage as PacketMessage;

#[test]
fn initiate_encoding() {
    let msg = new_srd_initiate_msg(0, 0, 1024).unwrap();
    assert_eq!(msg.msg_type(), SRD_INITIATE_MSG_ID);

    let mut buffer: Vec<u8> = Vec::new();
    match msg.write_to(&mut buffer) {
        Ok(_) => (),
        Err(_) => assert!(false),
    };

    match SrdMessage::read_from(buffer.as_slice()) {
        Ok(msg_read) => {
            assert_eq!(msg.signature(), SRD_SIGNATURE);
            assert_eq!(msg_read, msg);
        }
        Err(_) => assert!(false),
    }
}

#[test]
fn offer_encoding() {
    let msg = new_srd_offer_msg(1, 0, 256, vec![0, 0], vec![0u8; 256], vec![0u8; 256], [0u8; 32]);
    assert_eq!(msg.msg_type(), SRD_OFFER_MSG_ID);

    let mut buffer: Vec<u8> = Vec::new();
    match msg.write_to(&mut buffer) {
        Ok(_) => (),
        Err(_) => assert!(false),
    };

    match SrdMessage::read_from(buffer.as_slice()) {
        Ok(msg_read) => {
            assert_eq!(msg.signature(), SRD_SIGNATURE);
            assert_eq!(msg_read, msg);
        }
        Err(_) => assert!(false),
    }
}

#[test]
fn accept_encoding() {
    let msg = new_srd_accept_msg(2, true, 0, 256, vec![0u8; 256], [0u8; 32], [0u8; 32]);
    assert_eq!(msg.msg_type(), SRD_ACCEPT_MSG_ID);

    let mut buffer: Vec<u8> = Vec::new();
    match msg.write_to(&mut buffer) {
        Ok(_) => (),
        Err(_) => assert!(false),
    };

    match SrdMessage::read_from(buffer.as_slice()) {
        Ok(msg_read) => {
            assert_eq!(msg_read.signature(), SRD_SIGNATURE);
            assert_eq!(msg_read, msg);
        }
        Err(_) => assert!(false),
    }
}

#[test]
fn confirm_encoding() {
    let msg = new_srd_confirm_msg(3, true, false, [0u8; 32]);
    assert_eq!(msg.msg_type(), SRD_CONFIRM_MSG_ID);

    let mut buffer: Vec<u8> = Vec::new();
    match msg.write_to(&mut buffer) {
        Ok(_) => (),
        Err(_) => assert!(false),
    };

    match SrdMessage::read_from(buffer.as_slice()) {
        Ok(msg_read) => {
            assert_eq!(msg_read.signature(), SRD_SIGNATURE);
            assert_eq!(msg_read, msg);
        }
        Err(_) => assert!(false),
    }
}

#[test]
fn srd_initiate_initiate_encoding() {
    let msg = sardine::packets::SrdInitiate::new(0, 2);
    assert_eq!(msg.packet_type, SRD_INITIATE_MSG_ID);

    let mut buffer: Vec<u8> = Vec::new();
    match msg.write_to(&mut buffer) {
        Ok(_) => (),
        Err(_) => assert!(false),
    };

    match <sardine::packets::SrdInitiate as PacketMessage>::read_from(buffer.as_slice()) {
        Ok(x) => {
            assert_eq!(x.signature, SRD_SIGNATURE);
            assert_eq!(x, msg);
        }
        Err(_) => assert!(false),
    };
}

#[test]
fn srd_confirm_confirm_encoding() {
    let msg = sardine::packets::SrdConfirm::new(3, Some([0u8; 32]), &Vec::new(), &[0u8; 32]).unwrap();
    assert_eq!(msg.packet_type, SRD_CONFIRM_MSG_ID);

    let mut buffer: Vec<u8> = Vec::new();
    match msg.write_to(&mut buffer) {
        Ok(_) => (),
        Err(_) => assert!(false),
    };

    match <sardine::packets::SrdConfirm as PacketMessage>::read_from(buffer.as_slice()) {
        Ok(x) => {
            assert_eq!(x.signature, SRD_SIGNATURE);
            assert_eq!(x, msg);
        }
        Err(_) => assert!(false),
    };
}
